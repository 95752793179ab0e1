//! Where the other tools live: next to the running executable.
use vstd::prelude::*;
use crate::text::push_char;

verus! {

/// `name` appended to the Unix path `dir` the way `Path::join` does it: an
/// absolute `name` replaces `dir`, an empty `dir` adds nothing, and a `/` is
/// put between the two unless `dir` already ends with one.
pub open spec fn path_join(dir: Seq<char>, name: Seq<char>) -> Seq<char> {
    if name.len() > 0 && name[0] == '/' {
        name
    } else if dir.len() == 0 {
        name
    } else if dir.last() == '/' {
        dir + name
    } else {
        dir + seq!['/'] + name
    }
}

/// The path of the tool `name`: in `exe_dir`, the directory of the running
/// executable, when that is known, else `name` alone (looked up on `PATH`).
pub fn sibling_bin(exe_dir: Option<&str>, name: &str) -> (r: String)
    ensures
        r@ == match exe_dir {
            Some(d) => path_join(d@, name@),
            None => name@,
        },
{
    match exe_dir {
        None => String::from_str(name),
        Some(d) => {
            let n = name.unicode_len();
            if n > 0 && name.get_char(0) == '/' {
                return String::from_str(name);
            }
            let m = d.unicode_len();
            if m == 0 {
                return String::from_str(name);
            }
            let mut out = String::from_str(d);
            if d.get_char(m - 1) != '/' {
                push_char(&mut out, '/');
            }
            out.append(name);
            out
        },
    }
}

} // verus!
