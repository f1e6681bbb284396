//! Searching, cutting and building texts.
use vstd::prelude::*;

use crate::text::{
    all_digits, chars_of, decimal, digit, first_at, has_prefix, has_text, is_blank, is_digit,
    is_white_space, join, lines, opt_str, opt_text, path_below, replace_char, split_words,
    strip_all, strip_cr, text_between, texts, trim, trim_end, trim_start, u32_of, unsigned_part,
    value, white_space,
};

verus! {

// ── First occurrence ──────────────────────────────────────────────────────────

/// A position before which `c` does not occur, and at which it does unless it
/// is the end, is where `c` first occurs.
pub proof fn lemma_first_at(s: Seq<char>, c: char, k: int)
    requires
        0 <= k <= s.len(),
        forall|j: int| 0 <= j < k ==> s[j] != c,
        k < s.len() ==> s[k] == c,
    ensures
        first_at(s, c) == k,
    decreases k,
{
    if k > 0 {
        let t = s.skip(1);
        assert forall|j: int| 0 <= j < k - 1 implies t[j] != c by {
            assert(t[j] == s[j + 1]);
        }
        lemma_first_at(t, c, k - 1);
    }
}

/// `first_at` is a position in the text or its end; `c` stands there unless it
/// is the end, and nowhere before.
pub proof fn lemma_first_at_bounds(s: Seq<char>, c: char)
    ensures
        0 <= first_at(s, c) <= s.len(),
        first_at(s, c) < s.len() ==> s[first_at(s, c)] == c,
        forall|j: int| 0 <= j < first_at(s, c) ==> s[j] != c,
    decreases s.len(),
{
    if s.len() > 0 && s[0] != c {
        let t = s.skip(1);
        lemma_first_at_bounds(t, c);
        assert forall|j: int| 0 <= j < first_at(s, c) implies s[j] != c by {
            if j > 0 {
                assert(t[j - 1] == s[j]);
            }
        }
    }
}

// ── White space ───────────────────────────────────────────────────────────────

/// A text is blank exactly where nothing is left of it once it is trimmed.
pub proof fn law_blank_is_trimmed_empty(s: Seq<char>)
    ensures
        is_blank(s) <==> trim(s).len() == 0,
{
    lemma_trim_start(s);
    let t = trim_start(s);
    if t.len() == 0 {
        assert(trim_end(t).len() == 0);
    } else {
        lemma_trim_end_keeps(t, 0);
    }
}

proof fn lemma_trim_start(s: Seq<char>)
    ensures
        trim_start(s).len() == 0 <==> is_blank(s),
        trim_start(s).len() > 0 ==> !is_white_space(trim_start(s)[0]),
    decreases s.len(),
{
    if s.len() > 0 && is_white_space(s[0]) {
        let t = s.skip(1);
        lemma_trim_start(t);
        if is_blank(t) {
            assert forall|i: int| 0 <= i < s.len() implies is_white_space(#[trigger] s[i]) by {
                if i > 0 {
                    assert(t[i - 1] == s[i]);
                }
            }
        }
        if is_blank(s) {
            assert forall|i: int| 0 <= i < t.len() implies is_white_space(#[trigger] t[i]) by {
                assert(t[i] == s[i + 1]);
            }
        }
    }
}

/// What is not white space stays, with everything before it.
proof fn lemma_trim_end_keeps(s: Seq<char>, k: int)
    requires
        0 <= k < s.len(),
        !is_white_space(s[k]),
    ensures
        trim_end(s).len() > k,
    decreases s.len(),
{
    if is_white_space(s.last()) {
        lemma_trim_end_keeps(s.drop_last(), k);
    }
}

/// Skipping white space at the front does not change what `trim_start` gives.
proof fn lemma_trim_start_skip(s: Seq<char>, k: int)
    requires
        0 <= k <= s.len(),
        forall|i: int| 0 <= i < k ==> is_white_space(#[trigger] s[i]),
    ensures
        trim_start(s) == trim_start(s.skip(k)),
    decreases k,
{
    if k == 0 {
        assert(s.skip(0) =~= s);
    } else {
        let t = s.skip(1);
        assert forall|i: int| 0 <= i < k - 1 implies is_white_space(#[trigger] t[i]) by {
            assert(t[i] == s[i + 1]);
        }
        lemma_trim_start_skip(t, k - 1);
        assert(t.skip(k - 1) =~= s.skip(k));
    }
}

/// Dropping white space at the back does not change what `trim_end` gives.
proof fn lemma_trim_end_take(s: Seq<char>, k: int)
    requires
        0 <= k <= s.len(),
        forall|i: int| k <= i < s.len() ==> is_white_space(#[trigger] s[i]),
    ensures
        trim_end(s) == trim_end(s.take(k)),
    decreases s.len() - k,
{
    if k == s.len() {
        assert(s.take(k) =~= s);
    } else {
        let t = s.drop_last();
        assert(is_white_space(s[s.len() - 1]));
        assert forall|i: int| k <= i < t.len() implies is_white_space(#[trigger] t[i]) by {
            assert(t[i] == s[i]);
        }
        lemma_trim_end_take(t, k);
        assert(t.take(k) =~= s.take(k));
    }
}

/// Whether a text holds nothing but white space.
pub fn blank(s: &str) -> (r: bool)
    ensures
        r == is_blank(s@),
{
    let v = chars_of(s);
    let mut i: usize = 0;
    while i < v.len()
        invariant
            i <= v@.len(),
            v@ == s@,
            forall|j: int| 0 <= j < i ==> is_white_space(#[trigger] v@[j]),
        decreases v@.len() - i,
    {
        if !white_space(v[i]) {
            return false;
        }
        i += 1;
    }
    true
}

/// A text without the white space around it.
pub fn trimmed(s: &str) -> (r: String)
    ensures
        r@ == trim(s@),
{
    let v = chars_of(s);
    let mut from: usize = 0;
    while from < v.len() && white_space(v[from])
        invariant
            from <= v@.len(),
            forall|j: int| 0 <= j < from ==> is_white_space(#[trigger] v@[j]),
        decreases v@.len() - from,
    {
        from += 1;
    }
    let mut to: usize = v.len();
    while to > from && white_space(v[to - 1])
        invariant
            from <= to <= v@.len(),
            forall|j: int| to <= j < v@.len() ==> is_white_space(#[trigger] v@[j]),
        decreases to,
    {
        to -= 1;
    }
    proof {
        lemma_trim_start_skip(v@, from as int);
        let t = v@.skip(from as int);
        assert(trim_start(t) == t);
        assert forall|i: int| to - from <= i < t.len() implies is_white_space(#[trigger] t[i]) by {
            assert(t[i] == v@[i + from]);
        }
        lemma_trim_end_take(t, to - from);
        assert(t.take(to - from) =~= v@.subrange(from as int, to as int));
        let u = v@.subrange(from as int, to as int);
        if to > from {
            assert(u.last() == v@[to - 1]);
        }
        assert(trim_end(u) == u);
    }
    text_between(&v, from, to)
}

// ── Cutting ───────────────────────────────────────────────────────────────────

/// Cuts a text at its first `n - 1` spaces.
pub fn words(s: &str, n: usize) -> (r: Vec<String>)
    requires
        n >= 1,
    ensures
        texts(r@) == split_words(s@, n as nat),
{
    let v = chars_of(s);
    let mut parts: Vec<String> = Vec::new();
    let mut start: usize = 0;
    let mut i: usize = 0;
    assert(v@.skip(0) =~= v@);
    assert(texts(parts@) + split_words(v@, n as nat) =~= split_words(v@, n as nat));
    while i < v.len()
        invariant
            start <= i <= v@.len(),
            v@ == s@,
            parts@.len() < n,
            parts@.len() + 1 < n ==> forall|j: int| start <= j < i ==> v@[j] != ' ',
            split_words(s@, n as nat) == texts(parts@) + split_words(
                v@.skip(start as int),
                (n - parts@.len()) as nat,
            ),
        decreases v@.len() - i,
    {
        if v[i] == ' ' && parts.len() + 1 < n {
            let ghost rest = v@.skip(start as int);
            let ghost before = texts(parts@);
            proof {
                assert forall|j: int| 0 <= j < i - start implies rest[j] != ' ' by {
                    assert(rest[j] == v@[j + start]);
                }
                lemma_first_at(rest, ' ', i - start);
                assert(rest.take(i - start) =~= v@.subrange(start as int, i as int));
                assert(rest.skip(i - start + 1) =~= v@.skip(i + 1));
            }
            let part = text_between(&v, start, i);
            let ghost word = part@;
            parts.push(part);
            start = i + 1;
            proof {
                assert(texts(parts@) =~= before.push(word));
                let tail = split_words(v@.skip(start as int), (n - parts@.len()) as nat);
                assert(before + (seq![word] + tail) =~= texts(parts@) + tail);
            }
        }
        i += 1;
    }
    let ghost rest = v@.skip(start as int);
    let ghost before = texts(parts@);
    proof {
        if parts@.len() + 1 < n {
            assert forall|j: int| 0 <= j < rest.len() implies rest[j] != ' ' by {
                assert(rest[j] == v@[j + start]);
            }
            lemma_first_at(rest, ' ', rest.len() as int);
        }
        assert(rest =~= v@.subrange(start as int, v@.len() as int));
    }
    let part = text_between(&v, start, v.len());
    parts.push(part);
    assert(texts(parts@) =~= before + seq![rest]);
    parts
}

/// The parts of a text that was cut at spaces, put together with spaces, are
/// that text.
pub proof fn law_words_join_back(s: Seq<char>, n: nat)
    ensures
        join(split_words(s, n), seq![' ']) == s,
    decreases n,
{
    lemma_first_at_bounds(s, ' ');
    let i = first_at(s, ' ');
    if n > 1 && i < s.len() {
        let tail = split_words(s.skip(i + 1), (n - 1) as nat);
        law_words_join_back(s.skip(i + 1), (n - 1) as nat);
        let parts = split_words(s, n);
        lemma_words_count(s.skip(i + 1), (n - 1) as nat);
        assert(parts.skip(1) =~= tail);
        assert(s.take(i) + seq![' '] + s.skip(i + 1) =~= s);
    }
}

/// Cutting gives at least one part and at most as many as asked for.
pub proof fn lemma_words_count(s: Seq<char>, n: nat)
    ensures
        1 <= split_words(s, n).len(),
        n >= 1 ==> split_words(s, n).len() <= n,
    decreases n,
{
    if n > 1 && first_at(s, ' ') < s.len() {
        lemma_words_count(s.skip(first_at(s, ' ') + 1), (n - 1) as nat);
    }
}

/// The parts from `from` on, put together with `sep` between neighbours.
pub fn joined(parts: &Vec<String>, from: usize, sep: &str) -> (r: String)
    requires
        from <= parts@.len(),
    ensures
        r@ == join(texts(parts@).skip(from as int), sep@),
{
    let ghost all = texts(parts@);
    if from == parts.len() {
        return String::new();
    }
    let mut i: usize = parts.len() - 1;
    let mut r = parts[i].clone();
    proof {
        assert(all.skip(i as int).len() == 1);
        assert(all.skip(i as int)[0] == parts@[i as int]@);
    }
    while i > from
        invariant
            from <= i < parts@.len(),
            all == texts(parts@),
            r@ == join(all.skip(i as int), sep@),
        decreases i,
    {
        i -= 1;
        let tail = r;
        r = parts[i].clone();
        r.append(sep);
        r.append(tail.as_str());
        proof {
            let now = all.skip(i as int);
            assert(now.skip(1) =~= all.skip(i + 1));
            assert(now[0] == parts@[i as int]@);
            assert(now.len() > 1);
        }
    }
    r
}

/// The lines of a text.
pub fn lines_of(s: &str) -> (r: Vec<String>)
    ensures
        texts(r@) == lines(s@),
{
    let v = chars_of(s);
    let mut out: Vec<String> = Vec::new();
    let mut start: usize = 0;
    let mut i: usize = 0;
    assert(v@.skip(0) =~= v@);
    assert(texts(out@) + lines(v@) =~= lines(v@));
    while i < v.len()
        invariant
            start <= i <= v@.len(),
            v@ == s@,
            forall|j: int| start <= j < i ==> v@[j] != '\n',
            lines(s@) == texts(out@) + lines(v@.skip(start as int)),
        decreases v@.len() - i,
    {
        if v[i] == '\n' {
            let ghost rest = v@.skip(start as int);
            let ghost before = texts(out@);
            proof {
                assert forall|j: int| 0 <= j < i - start implies rest[j] != '\n' by {
                    assert(rest[j] == v@[j + start]);
                }
                lemma_first_at(rest, '\n', i - start);
                assert(rest.take(i - start) =~= v@.subrange(start as int, i as int));
                assert(rest.skip(i - start + 1) =~= v@.skip(i + 1));
            }
            let end: usize = if i > start && v[i - 1] == '\r' {
                i - 1
            } else {
                i
            };
            let line = text_between(&v, start, end);
            let ghost full = v@.subrange(start as int, i as int);
            proof {
                if i > start {
                    assert(full.last() == v@[i - 1]);
                    assert(full.drop_last() =~= v@.subrange(start as int, i - 1));
                }
                assert(line@ == strip_cr(full));
            }
            let ghost got = line@;
            out.push(line);
            start = i + 1;
            proof {
                assert(texts(out@) =~= before.push(got));
                let tail = lines(v@.skip(start as int));
                assert(before + (seq![got] + tail) =~= texts(out@) + tail);
            }
        }
        i += 1;
    }
    let ghost rest = v@.skip(start as int);
    let ghost before = texts(out@);
    if start < v.len() {
        proof {
            assert forall|j: int| 0 <= j < rest.len() implies rest[j] != '\n' by {
                assert(rest[j] == v@[j + start]);
            }
            lemma_first_at(rest, '\n', rest.len() as int);
            assert(rest =~= v@.subrange(start as int, v@.len() as int));
        }
        let line = text_between(&v, start, v.len());
        out.push(line);
        assert(texts(out@) =~= before + seq![rest]);
    } else {
        assert(before + lines(rest) =~= before);
    }
    out
}

// ── Searching ─────────────────────────────────────────────────────────────────

/// Whether `needle` stands in `v` at `at`.
fn stands_at(v: &Vec<char>, needle: &Vec<char>, at: usize) -> (r: bool)
    requires
        at + needle@.len() <= v@.len(),
    ensures
        r == (v@.subrange(at as int, at + needle@.len()) == needle@),
{
    let mut i: usize = 0;
    let len: usize = v.len();
    while i < needle.len()
        invariant
            len == v@.len(),
            i <= needle@.len(),
            at + needle@.len() <= v@.len(),
            forall|j: int| 0 <= j < i ==> v@[at + j] == needle@[j],
        decreases needle@.len() - i,
    {
        if v[at + i] != needle[i] {
            assert(v@.subrange(at as int, at + needle@.len())[i as int] == v@[at + i]);
            return false;
        }
        i += 1;
    }
    assert(v@.subrange(at as int, at + needle@.len()) =~= needle@);
    true
}

/// Whether `needle` occurs in a text.
pub fn contains(s: &str, needle: &str) -> (r: bool)
    ensures
        r == has_text(s@, needle@),
{
    let v = chars_of(s);
    let w = chars_of(needle);
    if w.len() > v.len() {
        return false;
    }
    let mut i: usize = 0;
    let last: usize = v.len() - w.len();
    loop
        invariant
            v@ == s@,
            w@ == needle@,
            i <= last,
            last == v@.len() - w@.len(),
            forall|j: int| 0 <= j < i ==> #[trigger] v@.subrange(j, j + w@.len()) != w@,
        decreases last - i,
    {
        if stands_at(&v, &w, i) {
            assert(s@.subrange(i as int, i + needle@.len()) == needle@);
            return true;
        }
        if i == last {
            return false;
        }
        i += 1;
    }
}

/// Whether a text begins with `prefix`.
pub fn starts_with(s: &str, prefix: &str) -> (r: bool)
    ensures
        r == has_prefix(s@, prefix@),
{
    let v = chars_of(s);
    let w = chars_of(prefix);
    if w.len() > v.len() {
        return false;
    }
    assert(v@.take(w@.len() as int) =~= v@.subrange(0, w@.len() as int));
    stands_at(&v, &w, 0)
}

/// A text without the copies of `prefix` that it begins with.
pub fn without_prefixes(s: &str, prefix: &str) -> (r: String)
    ensures
        r@ == strip_all(s@, prefix@),
{
    let v = chars_of(s);
    let w = chars_of(prefix);
    let mut at: usize = 0;
    assert(v@.skip(0) =~= v@);
    if w.len() > 0 {
        while v.len() - at >= w.len() && stands_at(&v, &w, at)
            invariant
                w@.len() > 0,
                v@ == s@,
                w@ == prefix@,
                at <= v@.len(),
                strip_all(s@, prefix@) == strip_all(v@.skip(at as int), w@),
            decreases v@.len() - at,
        {
            proof {
                let t = v@.skip(at as int);
                assert(t.take(w@.len() as int) =~= v@.subrange(at as int, at + w@.len()));
                assert(t.skip(w@.len() as int) =~= v@.skip(at + w@.len()));
            }
            at += w.len();
        }
        proof {
            let t = v@.skip(at as int);
            if w@.len() <= t.len() {
                assert(t.take(w@.len() as int) =~= v@.subrange(at as int, at + w@.len()));
            }
        }
    }
    assert(v@.skip(at as int) =~= v@.subrange(at as int, v@.len() as int));
    text_between(&v, at, v.len())
}

/// A text with `with` in the place of each `c`.
pub fn replaced(s: &str, c: char, with: &str) -> (r: String)
    ensures
        r@ == replace_char(s@, c, with@),
{
    let v = chars_of(s);
    let mut out = String::new();
    let mut i: usize = 0;
    assert(v@.take(0) =~= Seq::<char>::empty());
    while i < v.len()
        invariant
            i <= v@.len(),
            out@ == replace_char(v@.take(i as int), c, with@),
        decreases v@.len() - i,
    {
        let ghost before = out@;
        if v[i] == c {
            out.append(with);
        } else {
            out.push(v[i]);
            assert(out@ =~= before + seq![v@[i as int]]);
        }
        i += 1;
        assert(v@.take(i as int).drop_last() =~= v@.take(i - 1));
    }
    assert(v@.take(i as int) =~= v@);
    out
}

// ── Numbers ───────────────────────────────────────────────────────────────────

/// The character of a decimal digit.
pub fn digit_char(d: u8) -> (r: char)
    requires
        d < 10,
    ensures
        r == digit(d as int),
{
    (48 + d) as char
}

/// A number in decimal notation.
pub fn number(n: u64) -> (r: String)
    ensures
        r@ == decimal(n as nat),
    decreases n,
{
    if n < 10 {
        let mut s = String::new();
        s.push(digit_char(n as u8));
        assert(s@ =~= seq![digit(n as int)]);
        s
    } else {
        let mut s = number(n / 10);
        s.push(digit_char((n % 10) as u8));
        s
    }
}

/// Digits in front can only make a number larger.
proof fn lemma_value_grows(s: Seq<char>, k: int)
    requires
        0 <= k <= s.len(),
        all_digits(s),
    ensures
        0 <= value(s.take(k)) <= value(s),
    decreases s.len(),
{
    if k == s.len() {
        assert(s.take(k) =~= s);
        if s.len() > 0 {
            assert(is_digit(s[s.len() - 1]));
            lemma_value_grows(s.drop_last(), s.len() - 1);
            assert(s.drop_last().take(s.len() - 1) =~= s.drop_last());
        }
    } else {
        assert(is_digit(s[s.len() - 1]));
        lemma_value_grows(s.drop_last(), k);
        assert(s.drop_last().take(k) =~= s.take(k));
    }
}

/// The `u32` that a text stands for, if it stands for one.
pub fn parse_u32(s: &str) -> (r: Option<u32>)
    ensures
        r == u32_of(s@),
{
    let v = chars_of(s);
    let from: usize = if v.len() > 0 && v[0] == '+' {
        1
    } else {
        0
    };
    let ghost body = v@.skip(from as int);
    assert(from == 0 ==> body =~= v@);
    if from == v.len() {
        return None;
    }
    let mut total: u64 = 0;
    let mut i: usize = from;
    assert(body.take(0) =~= Seq::<char>::empty());
    while i < v.len()
        invariant
            from <= i <= v@.len(),
            from < v@.len(),
            v@ == s@,
            body == v@.skip(from as int),
            body == unsigned_part(s@),
            forall|j: int| 0 <= j < i - from ==> is_digit(#[trigger] body[j]),
            total == value(body.take(i - from)),
            total <= u32::MAX,
        decreases v@.len() - i,
    {
        let c = v[i];
        assert(body[i - from] == c);
        if !('0' <= c && c <= '9') {
            assert(!is_digit(body[i - from]));
            return None;
        }
        let ghost k = i - from;
        let next: u64 = total * 10 + (c as u32 - 48) as u64;
        proof {
            assert(body.take(k + 1).drop_last() =~= body.take(k));
            assert(body.take(k + 1).last() == c);
            assert(next == value(body.take(k + 1)));
            if next > u32::MAX && all_digits(body) {
                lemma_value_grows(body, k + 1);
            }
        }
        if next > 0xFFFF_FFFF {
            return None;
        }
        total = next;
        i += 1;
    }
    assert(body.take(i - from) =~= body);
    Some(total as u32)
}

// ── Optional texts and paths ──────────────────────────────────────────────────

/// The text of an optional string, borrowed.
pub fn as_str(s: &Option<String>) -> (r: Option<&str>)
    ensures
        opt_str(r) == opt_text(*s),
{
    match s {
        Some(s) => Some(s.as_str()),
        None => None,
    }
}

/// The path of `rel` below `base` in the Linux notation.
pub fn join_path(base: &str, rel: &str) -> (r: String)
    ensures
        r@ == path_below(base@, rel@),
{
    let b = chars_of(base);
    let v = chars_of(rel);
    if v.len() > 0 && v[0] == '/' {
        return rel.to_owned();
    }
    let mut out = base.to_owned();
    if b.len() > 0 && b[b.len() - 1] != '/' {
        out.push('/');
    }
    out.append(rel);
    out
}

} // verus!
