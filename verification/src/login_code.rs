//! Finding the device code in what `aws sso login` prints.
//!
//! `aws sso login` prints `Then enter the code:`, an empty line, and the code
//! on the line after that.
use vstd::prelude::*;
use crate::text::{find, is_ws, lemma_find_extend, lemma_find_from, lemma_trim_shape, occurs_at, push_char, to_chars, trim, trim_range, find_between};

verus! {

/// The text that precedes the device code.
pub open spec fn code_marker() -> Seq<char> {
    "Then enter the code:\n\n"@
}

/// The device code in `output`: the trimmed line that follows the first
/// marker, or nothing when there is no marker yet or that line is blank.
pub open spec fn code_in(output: Seq<char>) -> Option<Seq<char>> {
    match find(output, code_marker()) {
        None => None,
        Some(p) => {
            let after = output.subrange(p + code_marker().len(), output.len() as int);
            let end = match find(after, seq!['\n']) {
                Some(e) => e,
                None => after.len() as int,
            };
            let code = trim(after.subrange(0, end));
            if code.len() == 0 {
                None
            } else {
                Some(code)
            }
        },
    }
}

/// The device code in the output of `aws sso login` so far, if it has
/// arrived.
pub fn extract_code(output: &str) -> (r: Option<String>)
    ensures
        match r {
            Some(c) => code_in(output@) == Some(c@),
            None => code_in(output@) is None,
        },
{
    let marker_text = "Then enter the code:\n\n";
    let marker = to_chars(marker_text);
    let chars = to_chars(output);
    let n = chars.len();
    let pos = match find_between(&chars, &marker, 0, n) {
        Some(p) => p,
        None => {
            assert(chars@.subrange(0, n as int) == chars@);
            return None;
        },
    };
    assert(chars@.subrange(0, n as int) == chars@);
    proof {
        lemma_find_from(output@, code_marker(), 0);
    }
    let start = pos + marker.len();
    let mut nl: Vec<char> = Vec::new();
    nl.push('\n');
    assert(nl@ == seq!['\n']);
    let ghost after = chars@.subrange(start as int, n as int);
    let end = match find_between(&chars, &nl, start, n) {
        Some(e) => {
            proof {
                lemma_find_from(after, seq!['\n'], 0);
            }
            e
        },
        None => n,
    };
    assert(after.subrange(0, end - start) == chars@.subrange(start as int, end as int));
    let (a, b) = trim_range(&chars, start, end);
    if a == b {
        None
    } else {
        Some(String::from_str(output.substring_char(a, b)))
    }
}

/// A found code is never empty, is already trimmed, and is a single line.
pub proof fn lemma_code_shape(output: Seq<char>)
    ensures
        code_in(output) matches Some(c) ==> {
            &&& c.len() > 0
            &&& !is_ws(c[0])
            &&& !is_ws(c.last())
            &&& !c.contains('\n')
        },
{
    if let Some(p) = find(output, code_marker()) {
        lemma_find_from(output, code_marker(), 0);
        let after = output.subrange(p + code_marker().len(), output.len() as int);
        lemma_find_from(after, seq!['\n'], 0);
        let end = match find(after, seq!['\n']) {
            Some(e) => e,
            None => after.len() as int,
        };
        let line = after.subrange(0, end);
        lemma_trim_shape(line);
        assert(!line.contains('\n')) by {
            if line.contains('\n') {
                let j = choose|j: int| 0 <= j < line.len() && line[j] == '\n';
                assert(after.subrange(j, j + 1) == seq!['\n']);
                assert(occurs_at(after, seq!['\n'], j));
            }
        }
        let c = trim(line);
        let (a, b) = choose|a: int, b: int| 0 <= a <= b <= line.len() && c == line.subrange(a, b);
        if c.contains('\n') {
            let j = choose|j: int| 0 <= j < c.len() && c[j] == '\n';
            assert(line[a + j] == '\n');
        }
    }
}

/// Once the line after the marker is complete (its line break has
/// arrived), further output does not change the code found.
pub proof fn law_code_is_stable(output: Seq<char>, more: Seq<char>)
    requires
        find(output, code_marker()) matches Some(p) && find(
            output.subrange(p + code_marker().len(), output.len() as int),
            seq!['\n'],
        ) is Some,
    ensures
        code_in(output + more) == code_in(output),
{
    let m = code_marker();
    lemma_find_extend(output, more, m);
    lemma_find_from(output, m, 0);
    let p = find(output, m)->0;
    let after = output.subrange(p + m.len(), output.len() as int);
    let after2 = (output + more).subrange(p + m.len(), (output + more).len() as int);
    assert(after2 == after + more);
    lemma_find_extend(after, more, seq!['\n']);
    lemma_find_from(after, seq!['\n'], 0);
    let e = find(after, seq!['\n'])->0;
    assert(after2.subrange(0, e) == after.subrange(0, e));
}

/// Watches the output of `aws sso login` line by line for the device code.
pub struct CodeScanner {
    accumulated: String,
}

impl CodeScanner {
    /// The output seen since the last code was reported.
    pub closed spec fn pending(&self) -> Seq<char> {
        self.accumulated@
    }

    /// A scanner that has seen nothing yet.
    pub fn new() -> (s: Self)
        ensures
            s.pending() == Seq::<char>::empty(),
    {
        CodeScanner { accumulated: String::new() }
    }

    /// Takes one line of output (without its line break). Reports the device
    /// code once the output since the last report holds one, and then
    /// starts over.
    pub fn feed_line(&mut self, line: &str) -> (r: Option<String>)
        ensures
            ({
                let seen = old(self).pending() + line@ + seq!['\n'];
                match code_in(seen) {
                    Some(c) => r matches Some(rc) && rc@ == c && final(self).pending()
                        == Seq::<char>::empty(),
                    None => r is None && final(self).pending() == seen,
                }
            }),
    {
        self.accumulated.append(line);
        push_char(&mut self.accumulated, '\n');
        assert(self.accumulated@ == old(self).pending() + line@ + seq!['\n']);
        match extract_code(self.accumulated.as_str()) {
            Some(code) => {
                self.accumulated = String::new();
                Some(code)
            },
            None => None,
        }
    }
}

} // verus!
