//! How the tools hand over to one another through exit statuses.
use vstd::prelude::*;

verus! {

/// The exit status that a finished child process is passed on with: its
/// own, or 1 when it has none (it was killed by a signal).
pub fn exit_code(code: Option<i32>) -> (r: i32)
    ensures
        r == match code {
            Some(c) => c,
            None => 1i32,
        },
{
    match code {
        Some(c) => c,
        None => 1,
    }
}

/// What `aws-sso-maybe-login` does once `aws-sso-should-login` has answered.
#[derive(Debug)]
pub enum AfterCheck {
    /// A login is needed: run the login.
    Login,
    /// Stop with this exit status.
    Exit(i32),
}

/// `aws-sso-should-login` answers with 0 for "log in" and 1 for "no need";
/// any other status (or none) is an error that is passed on.
pub fn after_should_login(code: Option<i32>) -> (r: AfterCheck)
    ensures
        match r {
            AfterCheck::Login => code == Some(0i32),
            AfterCheck::Exit(c) => code != Some(0i32) && c == match code {
                Some(1i32) => 0i32,
                Some(x) => x,
                None => 1i32,
            },
        },
{
    match code {
        Some(0) => AfterCheck::Login,
        Some(1) => AfterCheck::Exit(0),
        _ => AfterCheck::Exit(exit_code(code)),
    }
}

/// What `aws-sso-run` and `docker-credential-sso-ecr-login` do once
/// `aws-sso-maybe-login` has finished: go on to the command when it
/// succeeded, else stop with its status.
pub fn after_maybe_login(success: bool, code: Option<i32>) -> (r: Option<i32>)
    ensures
        match r {
            None => success,
            Some(c) => !success && c == match code {
                Some(x) => x,
                None => 1i32,
            },
        },
{
    if success {
        None
    } else {
        Some(exit_code(code))
    }
}

} // verus!
