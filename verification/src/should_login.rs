//! Whether an SSO login is needed, and the message that says why.
//!
//! A login is needed when the profile's cached token is missing, has expired,
//! or expires within the grace period. Profiles that have no section or no
//! SSO configuration need none. The answer is given as an exit status: 0
//! when a login is needed, 1 when it is not.
use vstd::prelude::*;
use crate::sso::{debug_form, debug_quoted, Error, ErrorModel, UnixTime};
use crate::text::{decimal, push_char, push_decimal};

verus! {

/// How `fmt_duration` writes a number of seconds: `Ns` below a minute,
/// `Nm` or `Nm Ns` below an hour, `Nh` or `Nh Nm` from an hour on.
pub open spec fn duration_text(secs: nat) -> Seq<char> {
    if secs < 60 {
        decimal(secs) + seq!['s']
    } else if secs < 3600 {
        let m = secs / 60;
        let s = secs % 60;
        if s == 0 {
            decimal(m) + seq!['m']
        } else {
            decimal(m) + seq!['m', ' '] + decimal(s) + seq!['s']
        }
    } else {
        let h = secs / 3600;
        let m = (secs % 3600) / 60;
        if m == 0 {
            decimal(h) + seq!['h']
        } else {
            decimal(h) + seq!['h', ' '] + decimal(m) + seq!['m']
        }
    }
}

/// A duration of whole seconds in a short human form, such as `59s`,
/// `1m 30s` or `2h 1m`.
pub fn fmt_duration(secs: u64) -> (r: String)
    ensures
        r@ == duration_text(secs as nat),
{
    let mut out = String::new();
    if secs < 60 {
        push_decimal(&mut out, secs);
        push_char(&mut out, 's');
    } else if secs < 3600 {
        let m = secs / 60;
        let s = secs % 60;
        push_decimal(&mut out, m);
        push_char(&mut out, 'm');
        if s != 0 {
            push_char(&mut out, ' ');
            push_decimal(&mut out, s);
            push_char(&mut out, 's');
        }
    } else {
        let h = secs / 3600;
        let m = (secs % 3600) / 60;
        push_decimal(&mut out, h);
        push_char(&mut out, 'h');
        if m != 0 {
            push_char(&mut out, ' ');
            push_decimal(&mut out, m);
            push_char(&mut out, 'm');
        }
    }
    out
}

/// Nanoseconds in a second.
pub open spec fn nanos_per_sec() -> int {
    1_000_000_000
}

/// The decision for a profile, from the expiry of its token (or why that is
/// unknown), the current time and the grace period in seconds: whether to
/// log in, and why. Nothing when the expiry could not be determined for a
/// reason other than the three expected ones.
pub open spec fn decision_of(
    expiry: Result<UnixTime, ErrorModel>,
    now: UnixTime,
    grace_secs: nat,
    profile: Seq<char>,
) -> Option<(bool, Seq<char>)> {
    match expiry {
        Ok(t) => if t.instant() < now.instant() {
            Some((true, "SSO token has expired"@))
        } else {
            let remaining = t.instant() - now.instant();
            let shown = duration_text((remaining / nanos_per_sec()) as nat);
            if remaining < grace_secs * nanos_per_sec() {
                Some(
                    (
                        true,
                        "SSO token expires in "@ + shown + " (grace period: "@ + duration_text(
                            grace_secs,
                        ) + ")"@,
                    ),
                )
            } else {
                Some((false, "SSO token valid for "@ + shown))
            }
        },
        Err(ErrorModel::NoProfile(_)) => Some(
            (false, "profile "@ + debug_form(profile) + " not found in ~/.aws/config"@),
        ),
        Err(ErrorModel::NoSsoConfig(_)) => Some(
            (false, "profile "@ + debug_form(profile) + " has no SSO configuration"@),
        ),
        Err(ErrorModel::NoToken) => Some((true, "no SSO token cache found"@)),
        Err(_) => None,
    }
}

/// A login is needed exactly when the profile's token is missing, or when
/// less than the grace period is left before it expires (which includes a
/// token that has already expired); a profile without a section or without
/// SSO configuration never needs one.
pub proof fn law_login_needed(
    expiry: Result<UnixTime, ErrorModel>,
    now: UnixTime,
    grace_secs: nat,
    profile: Seq<char>,
)
    ensures
        decision_of(expiry, now, grace_secs, profile) matches Some(d) ==> (d.0 <==> (
        expiry is Err && expiry->Err_0 is NoToken || expiry is Ok && expiry->Ok_0.instant()
            < now.instant() + grace_secs * nanos_per_sec())),
        decision_of(expiry, now, grace_secs, profile) is Some <==> (expiry is Ok || (
        expiry is Err && (expiry->Err_0 is NoProfile || expiry->Err_0 is NoSsoConfig
            || expiry->Err_0 is NoToken))),
{
}

/// A longer grace period never turns a needed login into an unneeded one.
pub proof fn law_grace_monotone(
    expiry: Result<UnixTime, ErrorModel>,
    now: UnixTime,
    shorter: nat,
    longer: nat,
    profile: Seq<char>,
)
    requires
        shorter <= longer,
        decision_of(expiry, now, shorter, profile) matches Some(d) && d.0,
    ensures
        decision_of(expiry, now, longer, profile) matches Some(d) && d.0,
{
    assert(shorter * nanos_per_sec() <= longer * nanos_per_sec()) by (nonlinear_arith)
        requires
            shorter <= longer,
    ;
}

/// Whether a login is needed, and why.
#[derive(Debug)]
pub struct LoginDecision {
    pub should_login: bool,
    pub reason: String,
}

/// An expiry as a `Result` with its error as a model.
pub open spec fn expiry_view(expiry: Result<UnixTime, Error>) -> Result<UnixTime, ErrorModel> {
    match expiry {
        Ok(t) => Ok(t),
        Err(e) => Err(e@),
    }
}

/// Decides whether `profile` needs a login, given the expiry of its token as
/// `sso::expires_at` reports it, the current time and the grace period.
/// Errors other than a missing profile, a missing SSO configuration or a
/// missing token are handed back: the caller stops with them.
pub fn decide(expiry: Result<UnixTime, Error>, now: UnixTime, grace_secs: u64, profile: &str) -> (r:
    Result<LoginDecision, Error>)
    requires
        expiry matches Ok(t) ==> t.instant() - now.instant() < (u64::MAX + 1) * nanos_per_sec(),
    ensures
        match r {
            Ok(d) => decision_of(expiry_view(expiry), now, grace_secs as nat, profile@) == Some(
                (d.should_login, d.reason@),
            ),
            Err(e) => decision_of(expiry_view(expiry), now, grace_secs as nat, profile@) is None
                && expiry_view(expiry) == Err::<UnixTime, ErrorModel>(e@),
        },
{
    proof {
        reveal_strlit("SSO token has expired");
        reveal_strlit("SSO token expires in ");
        reveal_strlit(" (grace period: ");
        reveal_strlit(")");
        reveal_strlit("SSO token valid for ");
        reveal_strlit("profile ");
        reveal_strlit(" not found in ~/.aws/config");
        reveal_strlit(" has no SSO configuration");
        reveal_strlit("no SSO token cache found");
    }
    match expiry {
        Ok(t) => {
            let t_ns = (t.secs as i128) * 1_000_000_000 + (t.nanos as i128);
            let n_ns = (now.secs as i128) * 1_000_000_000 + (now.nanos as i128);
            if t_ns < n_ns {
                return Ok(
                    LoginDecision {
                        should_login: true,
                        reason: String::from_str("SSO token has expired"),
                    },
                );
            }
            let remaining = t_ns - n_ns;
            let shown_secs = (remaining / 1_000_000_000) as u64;
            let shown = fmt_duration(shown_secs);
            if remaining < (grace_secs as i128) * 1_000_000_000 {
                let mut reason = String::from_str("SSO token expires in ");
                reason.append(shown.as_str());
                reason.append(" (grace period: ");
                let g = fmt_duration(grace_secs);
                reason.append(g.as_str());
                reason.append(")");
                Ok(LoginDecision { should_login: true, reason })
            } else {
                let mut reason = String::from_str("SSO token valid for ");
                reason.append(shown.as_str());
                Ok(LoginDecision { should_login: false, reason })
            }
        },
        Err(Error::NoProfile(p)) => {
            let mut reason = String::from_str("profile ");
            let q = debug_quoted(profile);
            reason.append(q.as_str());
            reason.append(" not found in ~/.aws/config");
            Ok(LoginDecision { should_login: false, reason })
        },
        Err(Error::NoSsoConfig(p)) => {
            let mut reason = String::from_str("profile ");
            let q = debug_quoted(profile);
            reason.append(q.as_str());
            reason.append(" has no SSO configuration");
            Ok(LoginDecision { should_login: false, reason })
        },
        Err(Error::NoToken) => Ok(
            LoginDecision {
                should_login: true,
                reason: String::from_str("no SSO token cache found"),
            },
        ),
        Err(e) => Err(e),
    }
}

/// The exit status that answers "should I log in?": 0 for yes, 1 for no,
/// and 2 when the question could not be answered.
pub fn exit_status(r: &Result<LoginDecision, Error>) -> (code: i32)
    ensures
        code == match r {
            Ok(d) => if d.should_login {
                0i32
            } else {
                1i32
            },
            Err(_) => 2i32,
        },
{
    match r {
        Ok(d) => if d.should_login {
            0
        } else {
            1
        },
        Err(_) => 2,
    }
}

/// The line that `--verbose` prints: `should login: <reason>` or
/// `should not login: <reason>`.
pub fn report(d: &LoginDecision) -> (r: String)
    ensures
        r@ == (if d.should_login {
            "should login"@
        } else {
            "should not login"@
        }) + ": "@ + d.reason@,
{
    let mut out = if d.should_login {
        String::from_str("should login")
    } else {
        String::from_str("should not login")
    };
    out.append(": ");
    out.append(d.reason.as_str());
    out
}

} // verus!
