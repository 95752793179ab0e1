//! Automatic AWS SSO login: the decisions behind `aws-sso-run`,
//! `aws-sso-should-login`, `aws-sso-maybe-login`,
//! `aws-sso-login-showing-code` and `docker-credential-sso-ecr-login`.
pub mod active_profile;
pub mod flow;
pub mod home;
pub mod ini;
pub mod login_code;
pub mod should_login;
pub mod sibling;
pub mod show_code;
pub mod sso;
pub mod text;

use vstd::prelude::*;
use crate::text::{is_ws, to_chars};

verus! {

/// A length of time: `secs` seconds and `nanos` nanoseconds.
#[derive(Clone, Copy, Debug)]
pub struct TimeSpan {
    pub secs: u64,
    pub nanos: u32,
}

/// Whether `s` is the text `0`.
pub open spec fn is_zero_text(s: Seq<char>) -> bool {
    s == seq!['0']
}

/// Whether every character of `s` is whitespace (true of the empty text).
pub open spec fn all_ws(s: Seq<char>) -> bool {
    forall|i: int| 0 <= i < s.len() ==> is_ws(#[trigger] s[i])
}

/// How many of the characters of `s` are ASCII digits.
pub open spec fn digit_count(s: Seq<char>) -> nat
    decreases s.len(),
{
    if s.len() == 0 {
        0
    } else {
        digit_count(s.drop_last()) + if '0' <= s.last() && s.last() <= '9' {
            1nat
        } else {
            0nat
        }
    }
}

/// Counts the ASCII digits of `s`.
pub fn count_digits(s: &str) -> (n: usize)
    ensures
        n == digit_count(s@),
{
    let chars = to_chars(s);
    let mut n: usize = 0;
    let mut i: usize = 0;
    while i < chars.len()
        invariant
            i <= chars.len(),
            chars@ == s@,
            n == digit_count(chars@.take(i as int)),
            n <= i,
        decreases chars.len() - i,
    {
        assert(chars@.take(i + 1).drop_last() == chars@.take(i as int));
        if '0' <= chars[i] && chars[i] <= '9' {
            n = n + 1;
        }
        i = i + 1;
    }
    assert(chars@.take(chars.len() as int) == chars@);
    n
}

/// The most digits a duration text may hold for `humantime::parse_duration`
/// to be sure to return. Every number in the text is written with its own
/// digits, so the seconds that all its terms add up to stay below
/// `10^11` years of 31,557,600 seconds, far below `u64::MAX`; `add_current`
/// in humantime then never builds a `Duration` whose seconds overflow. With
/// enough digits a text can reach exactly `u64::MAX` seconds and then add a
/// full second of nanoseconds, and `Duration::new` panics.
pub const MAX_DURATION_DIGITS: usize = 11;

/// What `humantime::parse_duration` makes of a text: the duration as whole
/// seconds and the nanoseconds beyond them, or its error message.
pub uninterp spec fn humantime_duration(s: Seq<char>) -> Result<(u64, u32), Seq<char>>;

/// `humantime::parse_duration`, with the duration given as `as_secs()` and
/// `subsec_nanos()` and the error as its `Display` text. The contract claims
/// that the result depends on `s` alone, that the nanoseconds stay below a
/// second, that `"0"` is the zero duration, and that a text of whitespace
/// only is refused as empty; the duration grammar itself is not stated.
#[verifier::external_body]
fn humantime_parse(s: &str) -> (r: Result<(u64, u32), String>)
    requires
        digit_count(s@) <= MAX_DURATION_DIGITS,
    ensures
        match r {
            Ok(d) => humantime_duration(s@) == Ok::<(u64, u32), Seq<char>>(d) && d.1 < 1_000_000_000,
            Err(e) => humantime_duration(s@) == Err::<(u64, u32), Seq<char>>(e@),
        },
        is_zero_text(s@) ==> (r is Ok && r->Ok_0 == (0u64, 0u32)),
        all_ws(s@) ==> (r is Err && r->Err_0@ == "value was empty"@),
{
    match humantime::parse_duration(s) {
        Ok(d) => Ok((d.as_secs(), d.subsec_nanos())),
        Err(e) => Err(e.to_string()),
    }
}

/// The grace period that a read duration gives, or the message for a
/// refused one.
pub open spec fn grace_period_of(parsed: Result<(u64, u32), Seq<char>>) -> Result<(u64, u32), Seq<char>> {
    match parsed {
        Ok(d) => Ok(d),
        Err(m) => Err("invalid duration: "@ + m),
    }
}

/// A grace period from what reading its text gave.
pub fn grace_period_from(parsed: Result<(u64, u32), String>) -> (r: Result<TimeSpan, String>)
    ensures
        match (r, parsed) {
            (Ok(t), Ok(d)) => t.secs == d.0 && t.nanos == d.1,
            (Err(e), Err(m)) => e@ == "invalid duration: "@ + m@,
            _ => false,
        },
{
    match parsed {
        Ok((secs, nanos)) => Ok(TimeSpan { secs, nanos }),
        Err(m) => {
            let mut msg = String::from_str("invalid duration: ");
            msg.append(m.as_str());
            Err(msg)
        },
    }
}

/// Reads a grace period such as `10m` or `1h 30min` (humantime's duration
/// syntax). The text may hold at most `MAX_DURATION_DIGITS` digits (see
/// `count_digits`): beyond that humantime can panic.
pub fn parse_grace_period(s: &str) -> (r: Result<TimeSpan, String>)
    requires
        digit_count(s@) <= MAX_DURATION_DIGITS,
    ensures
        match (r, grace_period_of(humantime_duration(s@))) {
            (Ok(t), Ok(d)) => t.secs == d.0 && t.nanos == d.1,
            (Err(e), Err(m)) => e@ == m,
            _ => false,
        },
        r matches Ok(t) ==> t.nanos < 1_000_000_000,
{
    grace_period_from(humantime_parse(s))
}

} // verus!
