//! Durations: reading them from text, estimating them from word counts, and
//! writing them in shorthand.
use vstd::prelude::*;

use crate::words::{chars_of, is_white_space, is_white_space_char};

verus! {

/// The whole seconds of the duration that humantime reads from `s`, or `None`
/// where `s` is not a duration expression.
pub uninterp spec fn duration_seconds(s: Seq<char>) -> Option<u64>;

/// Where a left-to-right reading of a text's numbers stands: the bound so far
/// for the numbers already closed, the value of the open one, and whether a
/// number is open.
pub struct NumberScan {
    pub done: nat,
    pub cur: nat,
    pub has: bool,
}

pub open spec fn is_ascii_digit(c: char) -> bool {
    '0' <= c && c <= '9'
}

/// The bound that a scan stands for: each number read so far counts its value plus one.
pub open spec fn pending(st: NumberScan) -> nat {
    st.done + if st.has {
        st.cur + 1
    } else {
        0
    }
}

/// Reads one more character. Digits extend the open number and white space
/// inside a number is skipped, as humantime reads numbers; any other character
/// closes it.
pub open spec fn scan_step(st: NumberScan, c: char) -> NumberScan {
    if is_ascii_digit(c) {
        NumberScan { cur: st.cur * 10 + ((c as u32) as int - 48) as nat, has: true, ..st }
    } else if is_white_space(c) {
        st
    } else {
        NumberScan { done: pending(st), cur: 0, has: false }
    }
}

pub open spec fn scan_numbers(s: Seq<char>) -> NumberScan
    decreases s.len(),
{
    if s.len() == 0 {
        NumberScan { done: 0, cur: 0, has: false }
    } else {
        scan_step(scan_numbers(s.drop_last()), s.last())
    }
}

/// A bound on the sizes of the numbers written in `s`: each run of digits, with
/// the white space between them, read as one number, plus one for each number.
/// A fraction's digits count as a number of their own.
pub open spec fn duration_magnitude(s: Seq<char>) -> nat {
    pending(scan_numbers(s))
}

/// The seconds in humantime's largest unit, a year of 365.25 days.
pub const SECONDS_PER_YEAR: u64 = 31_557_600;

/// The largest magnitude whose multiple by a year's seconds stays below `u64::MAX`.
pub const MAX_DURATION_MAGNITUDE: u64 = 584_542_046_090;

/// Whether humantime's total for `s` stays below `u64::MAX` seconds whatever
/// units follow the numbers: every number `n` (a fraction's digits included)
/// contributes less than `(n + 1)` years.
pub open spec fn readable_duration(s: Seq<char>) -> bool {
    duration_magnitude(s) * SECONDS_PER_YEAR < u64::MAX
}

proof fn lemma_pending_grows(s: Seq<char>, i: int)
    requires
        0 <= i <= s.len(),
    ensures
        pending(scan_numbers(s.subrange(0, i))) <= pending(scan_numbers(s)),
    decreases s.len(),
{
    if i < s.len() {
        assert(s.drop_last().subrange(0, i) == s.subrange(0, i));
        lemma_pending_grows(s.drop_last(), i);
    } else {
        assert(s.subrange(0, i) == s);
    }
}

/// Relies on `humantime::parse_duration` (what `str::parse::<humantime::Duration>`
/// calls): `Some` of the whole seconds of the parsed duration, `None` on a parse
/// error, and on empty text (`Error::Empty`). Its numbers come from ASCII digits
/// only, and each contributes less than one year per unit of its value plus one.
/// It panics only where the running total reaches `u64::MAX` seconds
/// (`Duration::new` in `add_current`), which `readable_duration` rules out.
#[verifier::external_body]
pub(crate) fn parse_duration_seconds(s: &str) -> (r: Option<u64>)
    requires
        readable_duration(s@),
    ensures
        r == duration_seconds(s@),
        s@.len() == 0 ==> r is None,
{
    humantime::parse_duration(s).ok().map(|d| d.as_secs())
}

/// Tests whether humantime's total for `s` surely stays below `u64::MAX` seconds.
pub fn is_readable_duration(s: &str) -> (r: bool)
    ensures
        r == readable_duration(s@),
{
    let cs = chars_of(s);
    let mut done: u64 = 0;
    let mut cur: u64 = 0;
    let mut has = false;
    let mut i: usize = 0;
    while i < cs.len()
        invariant
            cs@ == s@,
            i <= cs.len(),
            ({
                let st = scan_numbers(cs@.subrange(0, i as int));
                &&& done == st.done
                &&& cur == st.cur
                &&& has == st.has
                &&& pending(st) <= MAX_DURATION_MAGNITUDE
            }),
            has || cur == 0,
        decreases cs.len() - i,
    {
        assert(cs@.subrange(0, i as int + 1).drop_last() == cs@.subrange(0, i as int));
        let c = cs[i];
        if '0' <= c && c <= '9' {
            cur = cur * 10 + (c as u32 - 48) as u64;
            has = true;
        } else if !is_white_space_char(c) {
            if has {
                done = done + cur + 1;
            }
            cur = 0;
            has = false;
        }
        i = i + 1;
        let p = if has {
            done + cur + 1
        } else {
            done
        };
        if p > MAX_DURATION_MAGNITUDE {
            proof {
                lemma_pending_grows(cs@, i as int);
                assert(cs@.subrange(0, cs@.len() as int) == cs@);
            }
            return false;
        }
    }
    assert(cs@.subrange(0, cs@.len() as int) == cs@);
    true
}

/// The estimated speaking time of `words` words: 2.5 seconds a word, rounded
/// to the nearest second, halves away from zero.
pub open spec fn spoken_seconds(words: nat) -> nat {
    (5 * words + 1) / 2
}

/// Estimates the seconds it takes to speak `word_count` words: 2.5 seconds a
/// word, rounded half away from zero, and `u64::MAX` where that does not fit.
pub fn word_count_to_seconds(word_count: u64) -> (r: u64)
    ensures
        spoken_seconds(word_count as nat) <= u64::MAX ==> r == spoken_seconds(word_count as nat),
        spoken_seconds(word_count as nat) > u64::MAX ==> r == u64::MAX,
{
    let half = word_count / 2 + word_count % 2;
    match word_count.checked_mul(2) {
        Some(double) => double.saturating_add(half),
        None => u64::MAX,
    }
}

/// The decimal digit of `d`, for `d < 10`.
pub open spec fn digit_char(d: nat) -> char {
    seq!['0', '1', '2', '3', '4', '5', '6', '7', '8', '9'][d as int]
}

/// The decimal form of `n`: no sign, no leading zeros.
pub open spec fn decimal(n: nat) -> Seq<char>
    decreases n,
{
    if n < 10 {
        seq![digit_char(n)]
    } else {
        decimal(n / 10).push(digit_char(n % 10))
    }
}

/// The one-character text of the digit `d`.
fn digit_str(d: u64) -> (r: &'static str)
    requires
        d < 10,
    ensures
        r@ == seq![digit_char(d as nat)],
{
    proof {
        reveal_strlit("0");
        reveal_strlit("1");
        reveal_strlit("2");
        reveal_strlit("3");
        reveal_strlit("4");
        reveal_strlit("5");
        reveal_strlit("6");
        reveal_strlit("7");
        reveal_strlit("8");
        reveal_strlit("9");
    }
    match d {
        0 => "0",
        1 => "1",
        2 => "2",
        3 => "3",
        4 => "4",
        5 => "5",
        6 => "6",
        7 => "7",
        8 => "8",
        _ => "9",
    }
}

/// Appends the decimal form of `n` to `out`.
fn append_decimal(out: &mut String, n: u64)
    ensures
        final(out)@ == old(out)@ + decimal(n as nat),
    decreases n,
{
    if n >= 10 {
        append_decimal(out, n / 10);
    }
    out.append(digit_str(n % 10));
    assert(final(out)@ =~= old(out)@ + decimal(n as nat));
}

/// The decimal form of `n`.
pub fn decimal_string(n: u64) -> (r: String)
    ensures
        r@ == decimal(n as nat),
{
    let mut out = String::new();
    append_decimal(&mut out, n);
    assert(out@ =~= decimal(n as nat));
    out
}

/// An amount followed by its unit letter, such as `"5m"`.
pub open spec fn unit_part(n: nat, unit: char) -> Seq<char> {
    decimal(n).push(unit)
}

/// The parts joined with single spaces.
pub open spec fn join_parts(ps: Seq<Seq<char>>) -> Seq<char>
    decreases ps.len(),
{
    if ps.len() == 0 {
        seq![]
    } else if ps.len() == 1 {
        ps[0]
    } else {
        join_parts(ps.drop_last()) + seq![' '] + ps.last()
    }
}

/// The non-zero hours, minutes and seconds of `n` seconds, each with its unit, largest first.
pub open spec fn shorthand_parts(n: nat) -> Seq<Seq<char>> {
    let hours = n / 3600;
    let minutes = n % 3600 / 60;
    let seconds = n % 60;
    let with_hours = if hours > 0 {
        seq![unit_part(hours, 'h')]
    } else {
        seq![]
    };
    let with_minutes = if minutes > 0 {
        with_hours.push(unit_part(minutes, 'm'))
    } else {
        with_hours
    };
    if seconds > 0 {
        with_minutes.push(unit_part(seconds, 's'))
    } else {
        with_minutes
    }
}

/// `n` seconds in shorthand, such as `"1h 1m 1s"`; empty for zero.
pub open spec fn shorthand(n: nat) -> Seq<char> {
    join_parts(shorthand_parts(n))
}

proof fn lemma_join_push(ps: Seq<Seq<char>>, p: Seq<char>)
    ensures
        join_parts(ps.push(p)) == if ps.len() == 0 {
            p
        } else {
            join_parts(ps) + seq![' '] + p
        },
{
    assert(ps.push(p).drop_last() == ps);
    assert(ps.push(p).last() == p);
    if ps.len() == 0 {
        assert(ps.push(p)[0] == p);
    }
}

/// Appends `n` and its unit letter to `out`, after a space where `out` already
/// holds a part.
fn push_part(
    out: &mut String,
    parts: Ghost<Seq<Seq<char>>>,
    started: bool,
    n: u64, unit: &str) -> (r: Ghost<
    Seq<Seq<char>>,
>)
    requires
        old(out)@ == join_parts(parts@),
        started == (parts@.len() > 0),
        unit@.len() == 1,
    ensures
        r@ == parts@.push(unit_part(n as nat, unit@[0])),
        final(out)@ == join_parts(r@),
{
    let ghost p = unit_part(n as nat, unit@[0]);
    proof {
        lemma_join_push(parts@, p);
        reveal_strlit(" ");
    }
    if started {
        out.append(" ");
    }
    let digits = decimal_string(n);
    out.append(digits.as_str());
    out.append(unit);
    assert(unit@ == seq![unit@[0]]);
    proof {
        if parts@.len() > 0 {
            assert(final(out)@ =~= join_parts(parts@) + seq![' '] + p);
        } else {
            assert(final(out)@ =~= p);
        }
    }
    Ghost(parts@.push(p))
}

/// Writes `seconds` as its non-zero hours, minutes and seconds, largest first,
/// each with its unit letter and separated by single spaces (`"1h 1m 1s"`,
/// `"1m 30s"`); zero gives the empty string.
pub fn seconds_to_human_shorthand_duration(seconds: u64) -> (r: String)
    ensures
        r@ == shorthand(seconds as nat),
{
    let hours = seconds / 3600;
    let minutes = (seconds % 3600) / 60;
    let secs = seconds % 60;
    let mut out = String::new();
    let ghost mut parts: Seq<Seq<char>> = seq![];
    let mut started = false;
    proof {
        reveal_strlit("h");
        reveal_strlit("m");
        reveal_strlit("s");
    }
    if hours > 0 {
        let g = push_part(&mut out, Ghost(parts), started, hours, "h");
        proof {
            parts = g@;
        }
        started = true;
    }
    if minutes > 0 {
        let g = push_part(&mut out, Ghost(parts), started, minutes, "m");
        proof {
            parts = g@;
        }
        started = true;
    }
    if secs > 0 {
        let g = push_part(&mut out, Ghost(parts), started, secs, "s");
        proof {
            parts = g@;
        }
    }
    assert(parts == shorthand_parts(seconds as nat));
    out
}

} // verus!
