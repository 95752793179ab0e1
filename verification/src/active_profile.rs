//! Which AWS profile is in effect.
use vstd::prelude::*;

verus! {

/// The profile in effect: the one given explicitly, else `AWS_PROFILE`, else
/// `AWS_DEFAULT_PROFILE` (each only when set and non-empty), else `default`.
pub open spec fn active_profile_of(
    profile_arg: Option<Seq<char>>,
    aws_profile: Option<Seq<char>>,
    aws_default_profile: Option<Seq<char>>,
) -> Seq<char> {
    match profile_arg {
        Some(p) => p,
        None => match aws_profile {
            Some(p) if p.len() > 0 => p,
            _ => match aws_default_profile {
                Some(p) if p.len() > 0 => p,
                _ => "default"@,
            },
        },
    }
}

/// A profile given explicitly is the profile in effect, whatever it is
/// (`default` included) and whatever the environment says.
pub proof fn law_explicit_profile_wins(
    p: Seq<char>,
    aws_profile: Option<Seq<char>>,
    aws_default_profile: Option<Seq<char>>,
)
    ensures
        active_profile_of(Some(p), aws_profile, aws_default_profile) == p,
{
}

/// Without an explicit profile, a non-empty `AWS_PROFILE` is in effect,
/// whatever `AWS_DEFAULT_PROFILE` says.
pub proof fn law_aws_profile_next(e: Seq<char>, aws_default_profile: Option<Seq<char>>)
    requires
        e.len() > 0,
    ensures
        active_profile_of(None, Some(e), aws_default_profile) == e,
{
}

/// Without an explicit profile and with `AWS_PROFILE` unset or empty, a
/// non-empty `AWS_DEFAULT_PROFILE` is in effect; with that also unset or
/// empty, the profile is `default`. The result is always one of the texts
/// given, or `default`.
pub proof fn law_default_profile_last(
    aws_profile: Option<Seq<char>>,
    aws_default_profile: Option<Seq<char>>,
)
    requires
        aws_profile is Some ==> aws_profile->0.len() == 0,
    ensures
        (aws_default_profile is Some && aws_default_profile->0.len() > 0) ==> active_profile_of(
            None,
            aws_profile,
            aws_default_profile,
        ) == aws_default_profile->0,
        !(aws_default_profile is Some && aws_default_profile->0.len() > 0) ==> active_profile_of(
            None,
            aws_profile,
            aws_default_profile,
        ) == "default"@,
{
}

/// The text of an optional string.
pub open spec fn opt_text(s: Option<&str>) -> Option<Seq<char>> {
    match s {
        Some(t) => Some(t@),
        None => None,
    }
}

/// The profile in effect, given the `--profile` argument and the values of
/// the `AWS_PROFILE` and `AWS_DEFAULT_PROFILE` environment variables (`None`
/// when a variable is unset or not valid Unicode).
pub fn get(profile_arg: Option<&str>, aws_profile: Option<&str>, aws_default_profile: Option<&str>) -> (r: String)
    ensures
        r@ == active_profile_of(
            opt_text(profile_arg),
            opt_text(aws_profile),
            opt_text(aws_default_profile),
        ),
        profile_arg is Some ==> r@ == profile_arg->0@,
        (profile_arg is None && aws_profile is Some && aws_profile->0@.len() > 0) ==> r@
            == aws_profile->0@,
{
    if let Some(p) = profile_arg {
        return String::from_str(p);
    }
    if let Some(p) = aws_profile {
        if !p.is_empty() {
            return String::from_str(p);
        }
    }
    if let Some(p) = aws_default_profile {
        if !p.is_empty() {
            return String::from_str(p);
        }
    }
    String::from_str("default")
}

} // verus!
