//! The text that shows the device code to the user.
use vstd::prelude::*;

verus! {

/// The line that shows `code` where no popup window is available.
pub open spec fn code_notice(code: Seq<char>) -> Seq<char> {
    "AWS SSO code: "@ + code
}

/// The line that shows the device code on the terminal: `AWS SSO code: `
/// and the code. The caller writes it to standard error.
pub fn show(code: &str) -> (r: String)
    ensures
        r@ == code_notice(code@),
{
    let mut s = String::from_str("AWS SSO code: ");
    s.append(code);
    s
}

} // verus!
