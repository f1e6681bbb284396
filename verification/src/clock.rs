//! The time of day in front of each entry of a log.
use vstd::prelude::*;

use crate::scan::digit_char;
use crate::text::digit;

verus! {

/// A number below one hundred, in two digits.
pub open spec fn two_digits(n: int) -> Seq<char> {
    seq![digit(n / 10), digit(n % 10)]
}

/// The time of day, as `HH:MM:SS`, that many seconds after a midnight.
pub open spec fn time_of_day(secs: nat) -> Seq<char> {
    let s = secs as int % 86400;
    two_digits(s / 3600) + seq![':'] + two_digits(s % 3600 / 60) + seq![':'] + two_digits(s % 60)
}

/// The time of day of some moment.
pub open spec fn is_stamp(s: Seq<char>) -> bool {
    exists|secs: u64| s == #[trigger] time_of_day(secs as nat)
}

/// An entry of a log: `text` with the time `now` in front of it.
pub open spec fn stamped(now: Seq<char>, text: Seq<char>) -> Seq<char> {
    "["@ + now + "] "@ + text
}

/// Calls `SystemTime::now` of the standard library and gives the whole seconds
/// since the Unix epoch, or zero before it. Nothing is said of the result: it
/// is whatever the clock of the machine shows.
#[verifier::external_body]
pub(crate) fn unix_seconds() -> (r: u64) {
    std::time::SystemTime::now()
        .duration_since(std::time::UNIX_EPOCH)
        .unwrap_or_default()
        .as_secs()
}

fn push_two_digits(out: &mut String, n: u8)
    requires
        n < 100,
    ensures
        final(out)@ == old(out)@ + two_digits(n as int),
{
    let ghost before = out@;
    out.push(digit_char(n / 10));
    out.push(digit_char(n % 10));
    assert(out@ =~= before + two_digits(n as int));
}

/// The time of day `secs` seconds after a midnight.
pub fn stamp(secs: u64) -> (r: String)
    ensures
        r@ == time_of_day(secs as nat),
{
    let s: u64 = secs % 86400;
    let mut out = String::new();
    push_two_digits(&mut out, (s / 3600) as u8);
    out.push(':');
    push_two_digits(&mut out, ((s % 3600) / 60) as u8);
    out.push(':');
    push_two_digits(&mut out, (s % 60) as u8);
    assert(out@ =~= time_of_day(secs as nat));
    out
}

/// The time of day now, in universal time.
pub fn chrono_stamp() -> (r: String)
    ensures
        is_stamp(r@),
{
    let secs: u64 = unix_seconds();
    stamp(secs)
}

/// An entry of a log.
pub fn entry(now: &str, text: &str) -> (r: String)
    ensures
        r@ == stamped(now@, text@),
{
    "[".to_owned().concat(now).concat("] ").concat(text)
}

/// A stamp has eight characters, and comes again a day later.
pub proof fn law_stamp_shape(secs: nat)
    ensures
        time_of_day(secs).len() == 8,
        time_of_day(secs)[2] == ':',
        time_of_day(secs)[5] == ':',
        time_of_day(secs + 86400) == time_of_day(secs),
{
    assert((secs + 86400) % 86400 == secs % 86400);
}

} // verus!
