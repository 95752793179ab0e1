//! The home directory, from `$HOME` or the password database.
use vstd::prelude::*;
use crate::sso::Error;

verus! {

/// The home directory: `$HOME` when it is set and non-empty, else the
/// directory that the password database gives for the current user.
pub open spec fn home_of(home_var: Option<Seq<char>>, passwd_dir: Option<Seq<char>>) -> Option<Seq<char>> {
    match home_var {
        Some(h) if h.len() > 0 => Some(h),
        _ => passwd_dir,
    }
}

/// Whether `$HOME` settles the home directory, so that the password
/// database need not be read.
pub fn home_from_env(home_var: Option<&str>) -> (r: Option<String>)
    ensures
        match r {
            Some(h) => home_var matches Some(v) && v@.len() > 0 && h@ == v@,
            None => !(home_var matches Some(v) && v@.len() > 0),
        },
{
    match home_var {
        Some(v) => if v.is_empty() {
            None
        } else {
            Some(String::from_str(v))
        },
        None => None,
    }
}

/// The home directory from `$HOME` and the password database's entry, or
/// an error when neither gives one.
pub fn home_dir(home_var: Option<&str>, passwd_dir: Option<&str>) -> (r: Result<String, Error>)
    ensures
        match r {
            Ok(h) => home_of(
                match home_var {
                    Some(v) => Some(v@),
                    None => None,
                },
                match passwd_dir {
                    Some(v) => Some(v@),
                    None => None,
                },
            ) == Some(h@),
            Err(e) => e@ == crate::sso::ErrorModel::Parse("cannot determine home directory"@)
                && home_of(
                match home_var {
                    Some(v) => Some(v@),
                    None => None,
                },
                match passwd_dir {
                    Some(v) => Some(v@),
                    None => None,
                },
            ) is None,
        },
{
    match home_from_env(home_var) {
        Some(h) => Ok(h),
        None => match passwd_dir {
            Some(d) => Ok(String::from_str(d)),
            None => Err(Error::Parse(String::from_str("cannot determine home directory"))),
        },
    }
}

/// The buffer length of the first password-database lookup.
pub const PASSWD_BUFFER_START: usize = 4096;

/// The largest buffer that a password-database lookup is retried with.
pub const PASSWD_BUFFER_MAX: usize = 65536;

/// After a password-database lookup with a buffer of `len` bytes returned
/// `ret`: the buffer length to retry with when the buffer was too small
/// (`ret == erange`) and may still be doubled, else nothing.
pub fn passwd_retry_len(ret: i32, erange: i32, len: usize) -> (r: Option<usize>)
    ensures
        match r {
            Some(n) => ret == erange && len < PASSWD_BUFFER_MAX && n == 2 * len,
            None => !(ret == erange && len < PASSWD_BUFFER_MAX),
        },
{
    if ret == erange && len < PASSWD_BUFFER_MAX {
        Some(len * 2)
    } else {
        None
    }
}

/// What to do after one password-database lookup.
#[derive(Debug, PartialEq, Eq)]
pub enum PasswdStep {
    /// Look up again with a buffer of this many bytes.
    Retry(usize),
    /// Give up: there is no home directory to be had from the database.
    Fail,
    /// The entry was found; read its home directory.
    Done,
}

/// The next step after a lookup with a buffer of `len` bytes returned `ret`
/// (`erange` being the "buffer too small" code) and, when `ret` is 0, an
/// entry or none (`entry_is_null`).
pub fn passwd_step(ret: i32, erange: i32, len: usize, entry_is_null: bool) -> (r: PasswdStep)
    ensures
        r == (if ret == erange && len < PASSWD_BUFFER_MAX {
            PasswdStep::Retry((2 * len) as usize)
        } else if ret != 0 || entry_is_null {
            PasswdStep::Fail
        } else {
            PasswdStep::Done
        }),
{
    match passwd_retry_len(ret, erange, len) {
        Some(n) => PasswdStep::Retry(n),
        None => if ret != 0 || entry_is_null {
            PasswdStep::Fail
        } else {
            PasswdStep::Done
        },
    }
}

/// The buffer length of the lookup numbered `i`, counting from 0, when each
/// retry doubles the buffer.
pub open spec fn passwd_buffer_len(i: nat) -> int
    decreases i,
{
    if i == 0 {
        PASSWD_BUFFER_START as int
    } else {
        2 * passwd_buffer_len((i - 1) as nat)
    }
}

/// Starting at 4096 bytes and doubling at each retry, lookup number `i`
/// uses `passwd_buffer_len(i)` bytes; `passwd_step` allows a retry only while
/// that is below 65,536 bytes, which holds exactly for `i < 4`. So there are
/// at most five lookups, the last with a buffer of 65,536 bytes.
pub proof fn law_passwd_lookups_bounded(i: nat)
    ensures
        passwd_buffer_len(i) < PASSWD_BUFFER_MAX <==> i < 4,
        i <= 4 ==> passwd_buffer_len(i) <= PASSWD_BUFFER_MAX,
        passwd_buffer_len(4) == PASSWD_BUFFER_MAX,
{
    reveal_with_fuel(passwd_buffer_len, 6);
    if i >= 4 {
        lemma_passwd_buffer_monotone(4, i);
    } else {
        lemma_passwd_buffer_monotone(i, 3);
    }
}

proof fn lemma_passwd_buffer_grows(i: nat)
    ensures
        passwd_buffer_len(i) <= passwd_buffer_len(i + 1),
        passwd_buffer_len(i) >= PASSWD_BUFFER_START,
    decreases i,
{
    if i > 0 {
        lemma_passwd_buffer_grows((i - 1) as nat);
    }
}

proof fn lemma_passwd_buffer_monotone(a: nat, b: nat)
    requires
        a <= b,
    ensures
        passwd_buffer_len(a) <= passwd_buffer_len(b),
    decreases b - a,
{
    if a < b {
        lemma_passwd_buffer_grows(a);
        lemma_passwd_buffer_monotone(a + 1, b);
    }
}

} // verus!
