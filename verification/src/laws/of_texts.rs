//! What searching, cutting and building texts is for.
use vstd::prelude::*;

use crate::clock::{chrono_stamp, entry, stamp, time_of_day};
use crate::scan::{
    blank, contains, digit_char, join_path, joined, law_words_join_back, lemma_first_at,
    lemma_first_at_bounds, lemma_words_count, lines_of, number, parse_u32, replaced, starts_with,
    trimmed, without_prefixes, words,
};
use crate::text::{
    all_digits, decimal, digit, first_at, has_prefix, has_text, is_blank, is_digit, is_white_space,
    join, lines, replace_char, split_words, strip_all, strip_cr, texts, trim, trim_end, trim_start,
    u32_of, unsigned_part, value,
};

verus! {

// ── White space ───────────────────────────────────────────────────────────────

proof fn lemma_trim_start_cut(s: Seq<char>) -> (i: int)
    ensures
        0 <= i <= s.len(),
        trim_start(s) == s.skip(i),
        forall|k: int| 0 <= k < i ==> is_white_space(#[trigger] s[k]),
        i < s.len() ==> !is_white_space(s[i]),
    decreases s.len(),
{
    if s.len() > 0 && is_white_space(s[0]) {
        let t = s.skip(1);
        let j = lemma_trim_start_cut(t);
        assert(t.skip(j) =~= s.skip(j + 1));
        assert forall|k: int| 0 <= k < j + 1 implies is_white_space(#[trigger] s[k]) by {
            if k > 0 {
                assert(t[k - 1] == s[k]);
            }
        }
        if j < t.len() {
            assert(t[j] == s[j + 1]);
        }
        j + 1
    } else {
        assert(s.skip(0) =~= s);
        0
    }
}

proof fn lemma_trim_end_cut(s: Seq<char>) -> (j: int)
    ensures
        0 <= j <= s.len(),
        trim_end(s) == s.take(j),
        forall|k: int| j <= k < s.len() ==> is_white_space(#[trigger] s[k]),
        j > 0 ==> !is_white_space(s[j - 1]),
    decreases s.len(),
{
    if s.len() > 0 && is_white_space(s.last()) {
        let t = s.drop_last();
        let j = lemma_trim_end_cut(t);
        assert(t.take(j) =~= s.take(j));
        assert forall|k: int| j <= k < s.len() implies is_white_space(#[trigger] s[k]) by {
            if k < t.len() {
                assert(t[k] == s[k]);
            }
        }
        if j > 0 {
            assert(t[j - 1] == s[j - 1]);
        }
        j
    } else {
        assert(s.take(s.len() as int) =~= s);
        s.len() as int
    }
}

/// Trimming cuts a text at both ends: what goes is white space, and what is left
/// neither begins nor ends with it.
pub proof fn law_trimming(s: &str, r: String)
    requires
        call_ensures(trimmed, (s,), r),
    ensures
        exists|i: int, j: int|
            0 <= i <= j <= s@.len() && r@ == #[trigger] s@.subrange(i, j) && (forall|k: int|
                0 <= k < i || j <= k < s@.len() ==> is_white_space(#[trigger] s@[k])),
        r@.len() > 0 ==> !is_white_space(r@[0]) && !is_white_space(r@.last()),
{
    let i = lemma_trim_start_cut(s@);
    let t = s@.skip(i);
    let j = lemma_trim_end_cut(t);
    assert(r@ == trim(s@));
    assert(t.take(j) =~= s@.subrange(i, i + j));
    assert forall|k: int| 0 <= k < i || i + j <= k < s@.len() implies is_white_space(
        #[trigger] s@[k],
    ) by {
        if k >= i + j {
            assert(t[k - i] == s@[k]);
        }
    }
    if r@.len() > 0 {
        assert(r@[0] == t[0]);
        assert(t[0] == s@[i]);
        assert(r@.last() == t[j - 1]);
    }
}

/// A text is blank exactly where all of it is white space.
pub proof fn law_blanks(s: &str, r: bool)
    requires
        call_ensures(blank, (s,), r),
    ensures
        !r <==> exists|k: int| 0 <= k < s@.len() && !is_white_space(#[trigger] s@[k]),
{
}

// ── Words ─────────────────────────────────────────────────────────────────────

/// No word but the last holds a space, nor does that, where there are fewer than
/// asked for.
pub proof fn lemma_words_hold_no_space(s: Seq<char>, n: nat, k: int, i: int)
    requires
        n >= 1,
        0 <= k < split_words(s, n).len(),
        0 <= i < split_words(s, n)[k].len(),
        k + 1 < split_words(s, n).len() || split_words(s, n).len() < n,
    ensures
        split_words(s, n)[k][i] != ' ',
    decreases n,
{
    lemma_first_at_bounds(s, ' ');
    let f = first_at(s, ' ');
    if n > 1 && f < s.len() {
        let t = s.skip(f + 1);
        let p = split_words(s, n);
        let q = split_words(t, (n - 1) as nat);
        if k == 0 {
            assert(p[0] == s.take(f));
        } else {
            assert(p[k] == q[k - 1]);
            lemma_words_hold_no_space(t, (n - 1) as nat, k - 1, i);
        }
    }
}

/// Cutting a text into at most `n` words gives at least one and at most `n`
/// parts. Only the last can hold a space, and only where there are `n`. Put
/// together with spaces they are the text.
pub proof fn law_words(s: &str, n: usize, r: Vec<String>)
    requires
        n >= 1,
        call_ensures(words, (s, n), r),
    ensures
        1 <= r@.len() <= n,
        forall|k: int, i: int|
            0 <= k < r@.len() && 0 <= i < r@[k]@.len() && (k + 1 < r@.len() || r@.len() < n)
                ==> #[trigger] r@[k]@[i] != ' ',
        join(r@.map_values(|w: String| w@), seq![' ']) == s@,
{
    let p = split_words(s@, n as nat);
    assert(texts(r@) == p);
    assert(texts(r@).len() == r@.len());
    lemma_words_count(s@, n as nat);
    law_words_join_back(s@, n as nat);
    assert(texts(r@) =~= r@.map_values(|w: String| w@));
    assert forall|k: int, i: int|
        0 <= k < r@.len() && 0 <= i < r@[k]@.len() && (k + 1 < r@.len() || r@.len()
            < n) implies #[trigger] r@[k]@[i] != ' ' by {
        assert(texts(r@)[k] == r@[k]@);
        lemma_words_hold_no_space(s@, n as nat, k, i);
    }
}

/// Putting parts together: the first of them, the separator, and the others put
/// together. One part alone is itself, and none is nothing.
pub proof fn law_joining(
    parts: &Vec<String>,
    from: usize,
    next: usize,
    sep: &str,
    r: String,
    rest: String,
)
    requires
        from <= parts@.len(),
        call_ensures(joined, (parts, from, sep), r),
        from < parts@.len() ==> next == from + 1 && call_ensures(joined, (parts, next, sep), rest),
    ensures
        from == parts@.len() ==> r@.len() == 0,
        from + 1 == parts@.len() ==> r@ == parts@[from as int]@,
        from + 1 < parts@.len() ==> r@ == parts@[from as int]@ + sep@ + rest@,
{
    let all = texts(parts@);
    assert(all.len() == parts@.len());
    let now = all.skip(from as int);
    if from < parts@.len() {
        assert(all[from as int] == parts@[from as int]@);
        assert(now[0] == all[from as int]);
        assert(now.skip(1) =~= all.skip(from + 1));
    }
}

// ── Lines ─────────────────────────────────────────────────────────────────────

/// A text that begins with a line has that line and those of the rest. The line
/// ends with a line feed, or with a carriage return and a line feed, and holds
/// neither.
pub proof fn law_first_line(s: &str, line: Seq<char>, cr: bool, rest: &str, r: Vec<String>, q: Vec<String>)
    requires
        call_ensures(lines_of, (s,), r),
        call_ensures(lines_of, (rest,), q),
        forall|i: int| 0 <= i < line.len() ==> line[i] != '\n',
        !cr ==> line.len() == 0 || line.last() != '\r',
        s@ == line + (if cr {
            seq!['\r', '\n']
        } else {
            seq!['\n']
        }) + rest@,
    ensures
        r@.len() == q@.len() + 1,
        r@[0]@ == line,
        forall|i: int| 0 <= i < q@.len() ==> r@[i + 1]@ == (#[trigger] q@[i])@,
{
    let k = line.len() + if cr {
        1int
    } else {
        0
    };
    assert(s@[k] == '\n');
    assert forall|j: int| 0 <= j < k implies s@[j] != '\n' by {
        if j < line.len() {
            assert(s@[j] == line[j]);
        }
    }
    lemma_first_at(s@, '\n', k);
    let head = s@.take(k);
    assert(s@.skip(k + 1) =~= rest@);
    if cr {
        assert(head.last() == '\r');
        assert(head.drop_last() =~= line);
    } else {
        assert(head =~= line);
    }
    assert(strip_cr(head) == line);
    assert(lines(s@) == seq![line] + lines(rest@));
    assert(texts(r@).len() == r@.len());
    assert(texts(q@).len() == q@.len());
    assert(texts(r@)[0] == r@[0]@);
    assert forall|i: int| 0 <= i < q@.len() implies r@[i + 1]@ == (#[trigger] q@[i])@ by {
        assert(texts(r@)[i + 1] == r@[i + 1]@);
        assert(texts(q@)[i] == q@[i]@);
        assert((seq![line] + lines(rest@))[i + 1] == lines(rest@)[i]);
    }
}

/// A text without a line feed is one line, and keeps all it holds; an empty text
/// has no line.
pub proof fn law_last_line(s: &str, r: Vec<String>)
    requires
        call_ensures(lines_of, (s,), r),
        forall|i: int| 0 <= i < s@.len() ==> s@[i] != '\n',
    ensures
        s@.len() == 0 ==> r@.len() == 0,
        s@.len() > 0 ==> r@.len() == 1 && r@[0]@ == s@,
{
    lemma_first_at(s@, '\n', s@.len() as int);
    assert(texts(r@).len() == r@.len());
    if s@.len() > 0 {
        assert(texts(r@)[0] == r@[0]@);
    }
}

// ── Searching and replacing ───────────────────────────────────────────────────

/// A text contains another exactly where it is that one with something, or
/// nothing, on both sides.
pub proof fn law_containing(s: &str, needle: &str, r: bool, before: Seq<char>, behind: Seq<char>)
    requires
        call_ensures(contains, (s, needle), r),
    ensures
        s@ == before + needle@ + behind ==> r,
        r ==> exists|a: Seq<char>, b: Seq<char>| s@ == #[trigger] (a + needle@ + b),
{
    let n = needle@.len() as int;
    if s@ == before + needle@ + behind {
        let i = before.len() as int;
        assert(s@.subrange(i, i + n) =~= needle@);
    }
    if r {
        assert(has_text(s@, needle@));
        let i = choose|i: int|
            0 <= i && i + n <= s@.len() && #[trigger] s@.subrange(i, i + n) == needle@;
        let a = s@.take(i);
        let b = s@.skip(i + n);
        assert(s@ =~= a + s@.subrange(i, i + n) + b);
        assert(s@ == a + needle@ + b);
    }
}

/// A text starts with another exactly where it is that one with something, or
/// nothing, behind it.
pub proof fn law_starting(s: &str, prefix: &str, r: bool, rest: Seq<char>)
    requires
        call_ensures(starts_with, (s, prefix), r),
    ensures
        s@ == prefix@ + rest ==> r,
        r ==> s@ == prefix@ + s@.skip(prefix@.len() as int),
{
    let n = prefix@.len() as int;
    if s@ == prefix@ + rest {
        assert(s@.take(n) =~= prefix@);
    }
    if r {
        assert(has_prefix(s@, prefix@));
        assert(s@ =~= s@.take(n) + s@.skip(n));
    }
}

/// Taking prefixes away: one more of them in front makes no difference, and a
/// text that does not start with one stays as it is.
pub proof fn law_without_prefixes(s: &str, longer: &str, prefix: &str, r: String, q: String)
    requires
        call_ensures(without_prefixes, (s, prefix), r),
        call_ensures(without_prefixes, (longer, prefix), q),
        prefix@.len() > 0,
        longer@ == prefix@ + s@,
    ensures
        q@ == r@,
        !(prefix@.len() <= s@.len() && s@.take(prefix@.len() as int) == prefix@) ==> r@ == s@,
{
    let n = prefix@.len() as int;
    assert(longer@.take(n) =~= prefix@);
    assert(longer@.skip(n) =~= s@);
}

proof fn lemma_replace_both(a: Seq<char>, b: Seq<char>, c: char, with: Seq<char>)
    ensures
        replace_char(a + b, c, with) == replace_char(a, c, with) + replace_char(b, c, with),
    decreases b.len(),
{
    let s = a + b;
    if b.len() == 0 {
        assert(s =~= a);
        assert(replace_char(a, c, with) + replace_char(b, c, with) =~= replace_char(a, c, with));
    } else {
        assert(s.drop_last() =~= a + b.drop_last());
        lemma_replace_both(a, b.drop_last(), c, with);
        let last = if b.last() == c {
            with
        } else {
            seq![b.last()]
        };
        assert(replace_char(a, c, with) + (replace_char(b.drop_last(), c, with) + last) =~= (
        replace_char(a, c, with) + replace_char(b.drop_last(), c, with)) + last);
    }
}

/// Replacing a character goes through a text from left to right: what stands in
/// the place of a text is what stands in the places of its two parts. A character
/// alone is replaced where it is the one meant, and else stays.
pub proof fn law_replacing(
    s: &str,
    a: &str,
    b: &str,
    c: char,
    with: &str,
    r: String,
    ra: String,
    rb: String,
)
    requires
        call_ensures(replaced, (s, c, with), r),
        call_ensures(replaced, (a, c, with), ra),
        call_ensures(replaced, (b, c, with), rb),
        s@ == a@ + b@,
    ensures
        r@ == ra@ + rb@,
        a@.len() == 0 ==> ra@.len() == 0,
        a@ == seq![c] ==> ra@ == with@,
        a@.len() == 1 && a@[0] != c ==> ra@ == a@,
{
    lemma_replace_both(a@, b@, c, with@);
    if a@.len() == 1 {
        assert(a@.drop_last().len() == 0);
        assert(replace_char(a@.drop_last(), c, with@) =~= Seq::empty());
        if a@[0] == c {
            assert(ra@ =~= with@);
        } else {
            assert(ra@ =~= a@);
        }
    }
}

// ── Numbers ───────────────────────────────────────────────────────────────────

/// The number that decimal digits stand for.
pub open spec fn number_of(digits: Seq<char>) -> int
    decreases digits.len(),
{
    if digits.len() == 0 {
        0
    } else {
        10 * number_of(digits.drop_last()) + (digits.last() as int - '0' as int)
    }
}

proof fn lemma_number_of(s: Seq<char>)
    ensures
        number_of(s) == value(s),
    decreases s.len(),
{
    if s.len() > 0 {
        lemma_number_of(s.drop_last());
    }
}

/// A number is written in decimal digits, without a zero in front, and they
/// stand for it.
pub proof fn law_decimal(n: nat)
    ensures
        decimal(n).len() > 0,
        forall|i: int| 0 <= i < decimal(n).len() ==> '0' <= #[trigger] decimal(n)[i] <= '9',
        number_of(decimal(n)) == n,
        n > 0 ==> decimal(n)[0] != '0',
        n == 0 ==> decimal(n) == seq!['0'],
    decreases n,
{
    let d = decimal(n);
    if n < 10 {
        assert(d =~= seq![digit(n as int)]);
        assert(d.drop_last().len() == 0);
        assert(number_of(d.drop_last()) == 0);
        assert(d.last() == digit(n as int));
        assert(digit(n as int) as int == 48 + n);
    } else {
        law_decimal(n / 10);
        let h = decimal(n / 10);
        assert(d == h.push(digit((n % 10) as int)));
        assert(d.drop_last() =~= h);
        assert(digit((n % 10) as int) as int == 48 + n % 10);
        assert(d[0] == h[0]);
    }
}

/// What `number` writes is such a notation, so no two numbers are written alike,
/// and `parse_u32` reads what was written, with or without a plus in front.
pub proof fn law_numbers(n: u32, text: String, s: &str, r: Option<u32>)
    requires
        call_ensures(number, (n as u64,), text),
        call_ensures(parse_u32, (s,), r),
        s@ == text@ || s@ == seq!['+'] + text@,
    ensures
        text@ == decimal(n as nat),
        number_of(text@) == n,
        r == Some(n),
{
    law_decimal(n as nat);
    let d = text@;
    lemma_number_of(d);
    assert(is_digit(d[0]));
    if s@ == seq!['+'] + d {
        assert(s@.skip(1) =~= d);
    }
    assert(unsigned_part(s@) == d);
    assert forall|i: int| 0 <= i < d.len() implies is_digit(#[trigger] d[i]) by {
        assert('0' <= decimal(n as nat)[i] <= '9');
    }
}

/// A text without the plus that it may begin with.
pub open spec fn signless(s: Seq<char>) -> Seq<char> {
    if s.len() > 0 && s[0] == '+' {
        s.subrange(1, s.len() as int)
    } else {
        s
    }
}

/// Nothing but the characters from `0` to `9`.
pub open spec fn only_digits(s: Seq<char>) -> bool {
    forall|i: int| 0 <= i < s.len() ==> '0' <= #[trigger] s[i] <= '9'
}

/// A number is read exactly from digits, at least one, whose number is below
/// two to the power of 32, with or without a plus in front.
pub proof fn law_reading_numbers(s: &str, r: Option<u32>)
    requires
        call_ensures(parse_u32, (s,), r),
    ensures
        r matches Some(n) ==> number_of(signless(s@)) == n,
        r is Some <==> signless(s@).len() > 0 && number_of(signless(s@)) <= 0xFFFF_FFFF
            && only_digits(signless(s@)),
{
    let d = unsigned_part(s@);
    assert(signless(s@) =~= d);
    lemma_number_of(d);
    if all_digits(d) {
        lemma_value_is_no_less(d);
        assert forall|i: int| 0 <= i < d.len() implies '0' <= #[trigger] d[i] <= '9' by {
            assert(is_digit(d[i]));
        }
    } else {
        let i = choose|i: int| 0 <= i < d.len() && !is_digit(#[trigger] d[i]);
        assert(!('0' <= d[i] <= '9'));
    }
}

proof fn lemma_value_is_no_less(s: Seq<char>)
    requires
        all_digits(s),
    ensures
        value(s) >= 0,
    decreases s.len(),
{
    if s.len() > 0 {
        assert(is_digit(s[s.len() - 1]));
        assert forall|i: int| 0 <= i < s.drop_last().len() implies is_digit(
            #[trigger] s.drop_last()[i],
        ) by {
            assert(s.drop_last()[i] == s[i]);
        }
        lemma_value_is_no_less(s.drop_last());
    }
}

/// The character of a digit stands as far behind `0` as the digit says.
pub proof fn law_digits(d: u8, r: char)
    requires
        d < 10,
        call_ensures(digit_char, (d,), r),
    ensures
        r as int == '0' as int + d,
{
}

// ── Paths ─────────────────────────────────────────────────────────────────────

/// A path below a directory: an absolute path is itself; any other stands behind
/// the directory, with exactly one slash added where the directory needs one.
pub proof fn law_paths(base: &str, rel: &str, r: String)
    requires
        call_ensures(join_path, (base, rel), r),
    ensures
        rel@.len() > 0 && rel@[0] == '/' ==> r@ == rel@,
        !(rel@.len() > 0 && rel@[0] == '/') ==> {
            &&& base@.len() == 0 ==> r@ == rel@
            &&& base@.len() > 0 && base@.last() == '/' ==> r@ == base@ + rel@
            &&& base@.len() > 0 && base@.last() != '/' ==> r@ == base@ + seq!['/'] + rel@
        },
{
    if base@.len() == 0 {
        assert(base@ + rel@ =~= rel@);
    }
    assert(base@.push('/') =~= base@ + seq!['/']);
}

// ── The time of day ───────────────────────────────────────────────────────────

/// Two characters are the two digits of a number.
pub open spec fn shows(tens: char, ones: char, n: int) -> bool {
    tens as int == '0' as int + n / 10 && ones as int == '0' as int + n % 10
}

/// A text is the time of day with these hours, minutes and seconds.
pub open spec fn shows_time(s: Seq<char>, h: int, m: int, sec: int) -> bool {
    &&& s.len() == 8
    &&& shows(s[0], s[1], h) && s[2] == ':'
    &&& shows(s[3], s[4], m) && s[5] == ':'
    &&& shows(s[6], s[7], sec)
}

/// The stamp of a moment shows the hours, minutes and seconds that have gone by
/// since midnight, whatever the day.
pub proof fn law_stamps(day: int, h: int, m: int, sec: int, secs: u64, r: String)
    requires
        call_ensures(stamp, (secs,), r),
        0 <= h < 24,
        0 <= m < 60,
        0 <= sec < 60,
        0 <= day,
        secs == 86400 * day + 3600 * h + 60 * m + sec,
    ensures
        shows_time(r@, h, m, sec),
{
    lemma_time_of_day(day, h, m, sec, secs as nat);
}

proof fn lemma_time_of_day(day: int, h: int, m: int, sec: int, secs: nat)
    requires
        0 <= h < 24,
        0 <= m < 60,
        0 <= sec < 60,
        0 <= day,
        secs == 86400 * day + 3600 * h + 60 * m + sec,
    ensures
        shows_time(time_of_day(secs), h, m, sec),
{
    let s = secs as int % 86400;
    assert(s == 3600 * h + 60 * m + sec);
    assert(s / 3600 == h);
    assert(s % 3600 == 60 * m + sec);
    assert(s % 3600 / 60 == m);
    assert(s % 60 == sec);
}

/// The stamp of now is that of some time of a day.
pub proof fn law_stamp_of_now(r: String)
    requires
        call_ensures(chrono_stamp, (), r),
    ensures
        exists|h: int, m: int, sec: int|
            0 <= h < 24 && 0 <= m < 60 && 0 <= sec < 60 && #[trigger] shows_time(r@, h, m, sec),
{
    let secs = choose|secs: u64| r@ == #[trigger] time_of_day(secs as nat);
    lemma_shows_some_time(secs as nat);
}

proof fn lemma_shows_some_time(secs: nat)
    ensures
        exists|h: int, m: int, sec: int|
            0 <= h < 24 && 0 <= m < 60 && 0 <= sec < 60 && #[trigger] shows_time(
                time_of_day(secs),
                h,
                m,
                sec,
            ),
{
    let s = secs as int % 86400;
    let h = s / 3600;
    let m = s % 3600 / 60;
    let sec = s % 60;
    lemma_time_of_day(secs as int / 86400, h, m, sec, secs);
    assert(shows_time(time_of_day(secs), h, m, sec));
}

/// An entry of a log is the time between brackets, a space and the text.
pub proof fn law_entries(now: &str, text: &str, r: String)
    requires
        call_ensures(entry, (now, text), r),
    ensures
        r@ == seq!['['] + now@ + seq![']', ' '] + text@,
{
    reveal_strlit("[");
    reveal_strlit("] ");
    assert("["@ =~= seq!['[']);
    assert("] "@ =~= seq![']', ' ']);
}

} // verus!
