//! The subset of INI that `~/.aws/config` uses: `[name]` section headers,
//! `key = value` pairs, and comment lines starting with `#` or `;`. Names,
//! keys and values are trimmed; keys (option names) are then lower-cased, as
//! `RawConfigParser` does, while section names and values keep their case.
//! A section that appears
//! twice collects the pairs of both; pairs before the first header belong to
//! the section with the empty name; any other line is ignored. Inline
//! comments and multi-line continuation values are not part of the format.
use vstd::prelude::*;
use crate::text::{find, lemma_trim_start_append, lemma_trim_end_append, lemma_trim_sides_idempotent, lemma_trim_end_keeps_first, lemma_trim_start_keeps_last, lemma_trim_sides_commute, lemma_trim_start_shape, lemma_trim_end_shape, lemma_find_first_at, lemma_find_from, is_ws, lemma_trim_shape, lowercase_of, occurs_at, to_lowercase, to_chars, trim, trim_end, trim_start, trim_range, find_between};

verus! {

/// Section name to (key to value).
pub type Sections = Map<Seq<char>, Map<Seq<char>, Seq<char>>>;

/// The parser's state between two lines: what has been read so far, and the
/// section that the next `key = value` line belongs to.
pub struct IniState {
    pub sections: Sections,
    pub current: Seq<char>,
}

/// `s` split at every `'\n'`. A `'\r'` before the `'\n'` stays on the line;
/// trimming removes it, as it does every other whitespace.
pub open spec fn split_lines(s: Seq<char>) -> Seq<Seq<char>>
    decreases s.len(),
{
    proof {
        lemma_find_from(s, seq!['\n'], 0);
    }
    match find(s, seq!['\n']) {
        Some(i) => seq![s.subrange(0, i)] + split_lines(s.subrange(i + 1, s.len() as int)),
        None => seq![s],
    }
}

/// A trimmed line that the parser ignores: empty, or a `;` or `#` comment.
pub open spec fn is_skipped(line: Seq<char>) -> bool {
    line.len() == 0 || line[0] == ';' || line[0] == '#'
}

/// For a trimmed line of the form `[name]`, the trimmed name.
pub open spec fn section_header(line: Seq<char>) -> Option<Seq<char>> {
    if line.len() >= 2 && line[0] == '[' && line.last() == ']' {
        Some(trim(line.subrange(1, line.len() - 1)))
    } else {
        None
    }
}

/// For a trimmed line holding `=`, the trimmed text before the first `=` and
/// the trimmed text after it.
pub open spec fn assignment(line: Seq<char>) -> Option<(Seq<char>, Seq<char>)> {
    match find(line, seq!['=']) {
        Some(i) => Some(
            (trim(line.subrange(0, i)), trim(line.subrange(i + 1, line.len() as int))),
        ),
        None => None,
    }
}

/// `sections` with `key` set to `value` in section `section`, creating the
/// section if it is not there yet.
pub open spec fn set_value(
    sections: Sections,
    section: Seq<char>,
    key: Seq<char>,
    value: Seq<char>,
) -> Sections {
    let inner = if sections.contains_key(section) {
        sections[section]
    } else {
        Map::empty()
    };
    sections.insert(section, inner.insert(key, value))
}

/// The effect of one raw line of input.
pub open spec fn ini_step(st: IniState, raw: Seq<char>) -> IniState {
    let line = trim(raw);
    if is_skipped(line) {
        st
    } else if section_header(line) is Some {
        IniState { sections: st.sections, current: section_header(line)->0 }
    } else if assignment(line) is Some {
        let (k, v) = assignment(line)->0;
        IniState {
            sections: set_value(st.sections, st.current, lowercase_of(k), v),
            current: st.current,
        }
    } else {
        st
    }
}

/// The effect of a sequence of lines, first to last.
pub open spec fn ini_fold(st: IniState, lines: Seq<Seq<char>>) -> IniState
    decreases lines.len(),
{
    if lines.len() == 0 {
        st
    } else {
        ini_fold(ini_step(st, lines[0]), lines.drop_first())
    }
}

/// Before the first header, pairs belong to the section with the empty name.
pub open spec fn ini_start() -> IniState {
    IniState { sections: Map::empty(), current: Seq::empty() }
}

/// What a configuration text means: its sections and their (lower-cased)
/// keys.
/// A section exists only once it holds a pair; a later pair for the same key
/// in the same section replaces the earlier one.
pub open spec fn ini_model(text: Seq<char>) -> Sections {
    ini_fold(ini_start(), split_lines(text)).sections
}

/// The value of `key` in `section`, if both are present.
pub open spec fn lookup(m: Sections, section: Seq<char>, key: Seq<char>) -> Option<Seq<char>> {
    if m.contains_key(section) && m[section].contains_key(key) {
        Some(m[section][key])
    } else {
        None
    }
}

/// One `key = value` pair of a section, in the order in which it was read.
pub struct IniEntry {
    pub section: String,
    pub key: String,
    pub value: String,
}

/// The pairs that a configuration text sets, in reading order; a later pair
/// for the same section and key takes precedence over an earlier one.
pub struct IniConfig {
    entries: Vec<IniEntry>,
}

/// The sections and keys that a list of pairs sets.
pub open spec fn entries_map(es: Seq<IniEntry>) -> Sections
    decreases es.len(),
{
    if es.len() == 0 {
        Map::empty()
    } else {
        let e = es.last();
        set_value(entries_map(es.drop_last()), e.section@, e.key@, e.value@)
    }
}

impl View for IniConfig {
    type V = Sections;

    closed spec fn view(&self) -> Sections {
        entries_map(self.entries@)
    }
}

proof fn lemma_contains_section(es: Seq<IniEntry>, section: Seq<char>)
    ensures
        entries_map(es).contains_key(section) <==> exists|j: int|
            0 <= j < es.len() && (#[trigger] es[j]).section@ == section,
    decreases es.len(),
{
    if es.len() > 0 {
        lemma_contains_section(es.drop_last(), section);
        if entries_map(es.drop_last()).contains_key(section) {
            let j = choose|j: int|
                0 <= j < es.drop_last().len() && (#[trigger] es.drop_last()[j]).section@
                    == section;
            assert(es[j] == es.drop_last()[j]);
        }
        if exists|j: int| 0 <= j < es.len() && (#[trigger] es[j]).section@ == section {
            let j = choose|j: int| 0 <= j < es.len() && (#[trigger] es[j]).section@ == section;
            if j < es.len() - 1 {
                assert(es.drop_last()[j] == es[j]);
            }
        }
    }
}

impl IniConfig {
    /// The value of `key` in section `section`, if the text sets one. Keys
    /// are stored lower-cased, so `key` matches only in its lower-case form.
    pub fn get(&self, section: &str, key: &str) -> (r: Option<&str>)
        ensures
            match r {
                Some(v) => lookup(self@, section@, key@) == Some(v@),
                None => lookup(self@, section@, key@) is None,
            },
    {
        let sec = String::from_str(section);
        let k = String::from_str(key);
        let mut i = self.entries.len();
        assert(self.entries@.take(i as int) == self.entries@);
        while i > 0
            invariant
                i <= self.entries.len(),
                sec@ == section@,
                k@ == key@,
                lookup(self@, section@, key@) == lookup(
                    entries_map(self.entries@.take(i as int)),
                    section@,
                    key@,
                ),
            decreases i,
        {
            assert(self.entries@.take(i as int).drop_last() == self.entries@.take(i - 1));
            let e = &self.entries[i - 1];
            if e.section == sec && e.key == k {
                return Some(e.value.as_str());
            }
            i = i - 1;
        }
        None
    }

    /// Whether the text sets any pair in section `section`.
    pub fn has_section(&self, section: &str) -> (b: bool)
        ensures
            b == self@.contains_key(section@),
    {
        let sec = String::from_str(section);
        proof {
            lemma_contains_section(self.entries@, section@);
        }
        let mut i: usize = 0;
        while i < self.entries.len()
            invariant
                i <= self.entries.len(),
                sec@ == section@,
                forall|j: int| 0 <= j < i ==> (#[trigger] self.entries@[j]).section@ != section@,
            decreases self.entries.len() - i,
        {
            if self.entries[i].section == sec {
                proof {
                    lemma_contains_section(self.entries@, section@);
                    assert(self.entries@[i as int].section@ == section@);
                }
                return true;
            }
            i = i + 1;
        }
        false
    }
}

proof fn lemma_split_found(s: Seq<char>, i: int)
    requires
        find(s, seq!['\n']) == Some(i),
    ensures
        0 <= i < s.len(),
        split_lines(s) == seq![s.subrange(0, i)] + split_lines(s.subrange(i + 1, s.len() as int)),
{
    lemma_find_from(s, seq!['\n'], 0);
}

proof fn lemma_fold_cons(st: IniState, l: Seq<char>, rest: Seq<Seq<char>>)
    ensures
        ini_fold(st, seq![l] + rest) == ini_fold(ini_step(st, l), rest),
{
    assert((seq![l] + rest).drop_first() == rest);
    assert((seq![l] + rest)[0] == l);
}

/// Applies one line, `chars[a..b]`, to the configuration being built.
fn apply_line(
    text: &str,
    chars: &Vec<char>,
    a: usize,
    b: usize,
    entries: &mut Vec<IniEntry>,
    current: &mut String,
)
    requires
        a <= b <= chars.len(),
        chars@ == text@,
    ensures
        ini_step(
            IniState { sections: entries_map(old(entries)@), current: old(current)@ },
            chars@.subrange(a as int, b as int),
        ) == (IniState { sections: entries_map(final(entries)@), current: final(current)@ }),
{
    let ghost raw = chars@.subrange(a as int, b as int);
    let (x, y) = trim_range(chars, a, b);
    let ghost line = chars@.subrange(x as int, y as int);
    assert(line == trim(raw));
    if x == y {
        return;
    }
    let c0 = chars[x];
    assert(line[0] == c0);
    if c0 == ';' || c0 == '#' {
        return;
    }
    if c0 == '[' && y - x >= 2 && chars[y - 1] == ']' {
        assert(line.last() == chars@[y - 1]);
        let (p, q) = trim_range(chars, x + 1, y - 1);
        assert(line.subrange(1, line.len() - 1) == chars@.subrange(x + 1, y - 1));
        *current = String::from_str(text.substring_char(p, q));
        return;
    }
    proof {
        if line.len() >= 2 && line[0] == '[' && line.last() == ']' {
            assert(line.last() == chars@[y - 1]);
        }
    }
    let mut eq: Vec<char> = Vec::new();
    eq.push('=');
    assert(eq@ == seq!['=']);
    match find_between(chars, &eq, x, y) {
        Some(e) => {
            proof {
                lemma_find_from(line, seq!['='], 0);
            }
            let (ka, kb) = trim_range(chars, x, e);
            let (va, vb) = trim_range(chars, e + 1, y);
            assert(line.subrange(0, e - x) == chars@.subrange(x as int, e as int));
            assert(line.subrange(e - x + 1, line.len() as int) == chars@.subrange(
                e + 1,
                y as int,
            ));
            let entry = IniEntry {
                section: current.clone(),
                key: to_lowercase(text.substring_char(ka, kb)),
                value: String::from_str(text.substring_char(va, vb)),
            };
            let ghost before = entries@;
            entries.push(entry);
            assert(entries@.drop_last() == before);
        },
        None => {},
    }
}

proof fn lemma_split_join(x: Seq<char>, y: Seq<char>)
    ensures
        split_lines(x + seq!['\n'] + y) == split_lines(x) + split_lines(y),
    decreases x.len(),
{
    let nl = seq!['\n'];
    let s = x + nl + y;
    lemma_find_from(x, nl, 0);
    lemma_find_from(s, nl, 0);
    match find(x, nl) {
        Some(i) => {
            assert forall|j: int| 0 <= j < i implies !occurs_at(s, nl, j) by {
                assert(!occurs_at(x, nl, j));
                assert(s.subrange(j, j + 1) == x.subrange(j, j + 1));
            }
            assert(s.subrange(i, i + 1) == x.subrange(i, i + 1));
            lemma_find_first_at(s, nl, 0, i);
            let rest = x.subrange(i + 1, x.len() as int);
            assert(s.subrange(0, i) == x.subrange(0, i));
            assert(s.subrange(i + 1, s.len() as int) == rest + nl + y);
            lemma_split_join(rest, y);
            lemma_split_found(x, i);
            lemma_split_found(s, i);
            assert(split_lines(s) == seq![x.subrange(0, i)] + (split_lines(rest) + split_lines(y)));
            assert(split_lines(x) == seq![x.subrange(0, i)] + split_lines(rest));
            assert(split_lines(s) == split_lines(x) + split_lines(y));
        },
        None => {
            let n = x.len() as int;
            assert forall|j: int| 0 <= j < n implies !occurs_at(s, nl, j) by {
                assert(!occurs_at(x, nl, j));
                assert(s.subrange(j, j + 1) == x.subrange(j, j + 1));
            }
            assert(s.subrange(n, n + 1) == nl);
            lemma_find_first_at(s, nl, 0, n);
            lemma_split_found(s, n);
            assert(s.subrange(0, n) == x);
            assert(s.subrange(n + 1, s.len() as int) == y);
            assert(split_lines(x) == seq![x]);
        },
    }
}

proof fn lemma_fold_append(st: IniState, a: Seq<Seq<char>>, b: Seq<Seq<char>>)
    ensures
        ini_fold(st, a + b) == ini_fold(ini_fold(st, a), b),
    decreases a.len(),
{
    if a.len() > 0 {
        assert((a + b).drop_first() == a.drop_first() + b);
        assert((a + b)[0] == a[0]);
        lemma_fold_append(ini_step(st, a[0]), a.drop_first(), b);
    } else {
        assert(a + b == b);
    }
}

/// A line that the parser ignores: blank, a `#`/`;` comment, or neither a
/// section header nor a `key = value` pair.
pub open spec fn is_inert(raw: Seq<char>) -> bool {
    let line = trim(raw);
    is_skipped(line) || (section_header(line) is None && assignment(line) is None)
}

/// A line that the parser ignores can be added between two lines of a
/// configuration text without changing what the text means.
pub proof fn law_inert_line_ignored(before: Seq<char>, line: Seq<char>, after: Seq<char>)
    requires
        !line.contains('\n'),
        is_inert(line),
    ensures
        ini_model(before + seq!['\n'] + line + seq!['\n'] + after) == ini_model(
            before + seq!['\n'] + after,
        ),
{
    let nl = seq!['\n'];
    assert(before + nl + line + nl + after == before + nl + (line + nl + after));
    lemma_split_join(before, line + nl + after);
    lemma_split_join(line, after);
    lemma_split_join(before, after);
    lemma_split_one_line(line);
    let a = split_lines(before);
    let b = split_lines(after);
    assert(a + (seq![line] + b) == a + seq![line] + b);
    lemma_fold_append(ini_start(), a, seq![line] + b);
    lemma_fold_cons(ini_fold(ini_start(), a), line, b);
    lemma_fold_append(ini_start(), a, b);
}

/// A line that the parser ignores, put at the start of a configuration text,
/// does not change what the text means.
pub proof fn law_leading_inert_line_ignored(line: Seq<char>, after: Seq<char>)
    requires
        !line.contains('\n'),
        is_inert(line),
    ensures
        ini_model(line + seq!['\n'] + after) == ini_model(after),
{
    lemma_split_join(line, after);
    lemma_split_one_line(line);
    lemma_fold_cons(ini_start(), line, split_lines(after));
}

/// Whether trimming leaves `s` as it is.
pub open spec fn is_trimmed(s: Seq<char>) -> bool {
    trim(s) == s
}

proof fn lemma_trim_idempotent(s: Seq<char>)
    ensures
        is_trimmed(trim(s)),
{
    lemma_trim_shape(s);
    let t = trim(s);
    assert(trim_start(t) == t);
    assert(trim_end(t) == t);
}

/// A piece of one line: trimmed, and holding no line break.
pub open spec fn is_line_text(s: Seq<char>) -> bool {
    is_trimmed(s) && !s.contains('\n')
}

/// The text of an option name before lower-casing: a trimmed piece of one
/// line that holds no `=` and does not start with `#` or `;`.
pub open spec fn is_raw_key(k: Seq<char>) -> bool {
    &&& is_line_text(k)
    &&& !k.contains('=')
    &&& (k.len() > 0 ==> k[0] != '#' && k[0] != ';')
}

/// An option name: the lower-cased form of a raw key.
pub open spec fn is_option_name(k: Seq<char>) -> bool {
    exists|k0: Seq<char>| is_raw_key(k0) && #[trigger] lowercase_of(k0) == k
}

/// The shape of a section of `m`: its name is a piece of one line, it holds
/// at least one pair, every key is an option name and every value a piece of
/// one line.
pub open spec fn section_shaped(m: Sections, sec: Seq<char>) -> bool {
    &&& is_line_text(sec)
    &&& exists|k: Seq<char>| #[trigger] m[sec].contains_key(k)
    &&& forall|k: Seq<char>| #[trigger]
        m[sec].contains_key(k) ==> is_option_name(k) && is_line_text(m[sec][k])
}

/// Every section of `st`, and the section that pairs go to next, are
/// well shaped.
pub open spec fn state_shaped(st: IniState) -> bool {
    &&& is_line_text(st.current)
    &&& forall|sec: Seq<char>| #[trigger]
        st.sections.contains_key(sec) ==> section_shaped(st.sections, sec)
}

proof fn lemma_no_char_in_subrange(s: Seq<char>, a: int, b: int, c: char)
    requires
        0 <= a <= b <= s.len(),
        !s.contains(c),
    ensures
        !s.subrange(a, b).contains(c),
{
    if s.subrange(a, b).contains(c) {
        let j = choose|j: int| 0 <= j < s.subrange(a, b).len() && s.subrange(a, b)[j] == c;
        assert(s[a + j] == c);
    }
}

proof fn lemma_trim_keeps_out(s: Seq<char>, c: char)
    requires
        !s.contains(c),
    ensures
        !trim(s).contains(c),
{
    lemma_trim_shape(s);
    let (a, b) = choose|a: int, b: int| 0 <= a <= b <= s.len() && trim(s) == s.subrange(a, b);
    lemma_no_char_in_subrange(s, a, b, c);
}

proof fn lemma_line_text_of(s: Seq<char>)
    requires
        !s.contains('\n'),
    ensures
        is_line_text(trim(s)),
{
    lemma_trim_idempotent(s);
    lemma_trim_keeps_out(s, '\n');
}

proof fn lemma_raw_key(line: Seq<char>, i: int)
    requires
        !line.contains('\n'),
        line == trim(line),
        line.len() > 0,
        !is_skipped(line),
        find(line, seq!['=']) == Some(i),
    ensures
        is_raw_key(trim(line.subrange(0, i))),
{
    lemma_find_from(line, seq!['='], 0);
    let sub = line.subrange(0, i);
    lemma_no_char_in_subrange(line, 0, i, '\n');
    lemma_line_text_of(sub);
    assert(!sub.contains('=')) by {
        if sub.contains('=') {
            let j = choose|j: int| 0 <= j < sub.len() && sub[j] == '=';
            assert(line.subrange(j, j + 1) == seq!['=']);
            assert(occurs_at(line, seq!['='], j));
        }
    }
    lemma_trim_keeps_out(sub, '=');
    lemma_trim_shape(line);
    if i > 0 {
        assert(!is_ws(sub[0]));
        assert(trim_start(sub) == sub);
        lemma_trim_shape(sub);
        let k = trim(sub);
        let t = trim_start(sub);
        if k.len() > 0 {
            assert(trim_end(t).len() > 0);
            lemma_trim_end_prefix(t);
            assert(k[0] == sub[0]);
        }
    } else {
        assert(sub.len() == 0);
        assert(trim_start(sub) == sub);
        assert(trim(sub).len() == 0);
    }
}

proof fn lemma_trim_end_prefix(t: Seq<char>)
    ensures
        trim_end(t).len() <= t.len(),
        forall|j: int| 0 <= j < trim_end(t).len() ==> trim_end(t)[j] == t[j],
    decreases t.len(),
{
    if t.len() > 0 && is_ws(t.last()) {
        lemma_trim_end_prefix(t.drop_last());
        assert forall|j: int| 0 <= j < trim_end(t).len() implies trim_end(t)[j] == t[j] by {
            assert(t.drop_last()[j] == t[j]);
        }
    }
}

proof fn lemma_step_shaped(st: IniState, raw: Seq<char>)
    requires
        state_shaped(st),
        !raw.contains('\n'),
    ensures
        state_shaped(ini_step(st, raw)),
{
    let line = trim(raw);
    lemma_line_text_of(raw);
    if !is_skipped(line) {
        if section_header(line) is Some {
            lemma_no_char_in_subrange(line, 1, line.len() - 1, '\n');
            lemma_line_text_of(line.subrange(1, line.len() - 1));
        } else if assignment(line) is Some {
            let i = find(line, seq!['='])->0;
            lemma_find_from(line, seq!['='], 0);
            let k0 = trim(line.subrange(0, i));
            let v = trim(line.subrange(i + 1, line.len() as int));
            lemma_raw_key(line, i);
            lemma_no_char_in_subrange(line, i + 1, line.len() as int, '\n');
            lemma_line_text_of(line.subrange(i + 1, line.len() as int));
            let k = lowercase_of(k0);
            assert(is_option_name(k));
            let m = st.sections;
            let m2 = set_value(m, st.current, k, v);
            assert forall|sec: Seq<char>| #[trigger] m2.contains_key(sec) implies section_shaped(
                m2,
                sec,
            ) by {
                if sec == st.current {
                    assert(m2[sec].contains_key(k));
                    assert forall|kk: Seq<char>| #[trigger] m2[sec].contains_key(kk) implies is_option_name(kk) && is_line_text(m2[sec][kk]) by {
                        if kk != k {
                            assert(m.contains_key(sec) && m[sec].contains_key(kk));
                            assert(section_shaped(m, sec));
                        }
                    }
                } else {
                    assert(m.contains_key(sec));
                    assert(m2[sec] == m[sec]);
                    assert(section_shaped(m, sec));
                }
            }
        }
    }
}

proof fn lemma_split_lines_single(s: Seq<char>)
    ensures
        forall|j: int| 0 <= j < split_lines(s).len() ==> !(#[trigger] split_lines(s)[j]).contains('\n'),
    decreases s.len(),
{
    lemma_find_from(s, seq!['\n'], 0);
    match find(s, seq!['\n']) {
        Some(i) => {
            lemma_split_found(s, i);
            let rest = s.subrange(i + 1, s.len() as int);
            lemma_split_lines_single(rest);
            assert(!s.subrange(0, i).contains('\n')) by {
                if s.subrange(0, i).contains('\n') {
                    let j = choose|j: int| 0 <= j < i && s.subrange(0, i)[j] == '\n';
                    assert(s.subrange(j, j + 1) == seq!['\n']);
                    assert(occurs_at(s, seq!['\n'], j));
                }
            }
            assert forall|j: int| 0 <= j < split_lines(s).len() implies !(
            #[trigger] split_lines(s)[j]).contains('\n') by {
                if j > 0 {
                    assert(split_lines(s)[j] == split_lines(rest)[j - 1]);
                }
            }
        },
        None => {
            assert(!s.contains('\n')) by {
                if s.contains('\n') {
                    let j = choose|j: int| 0 <= j < s.len() && s[j] == '\n';
                    assert(s.subrange(j, j + 1) == seq!['\n']);
                    assert(occurs_at(s, seq!['\n'], j));
                }
            }
        },
    }
}

proof fn lemma_fold_shaped(st: IniState, lines: Seq<Seq<char>>)
    requires
        state_shaped(st),
        forall|j: int| 0 <= j < lines.len() ==> !(#[trigger] lines[j]).contains('\n'),
    ensures
        state_shaped(ini_fold(st, lines)),
    decreases lines.len(),
{
    if lines.len() > 0 {
        assert(!lines[0].contains('\n'));
        lemma_step_shaped(st, lines[0]);
        assert forall|j: int| 0 <= j < lines.drop_first().len() implies !(
        #[trigger] lines.drop_first()[j]).contains('\n') by {
            assert(lines.drop_first()[j] == lines[j + 1]);
        }
        lemma_fold_shaped(ini_step(st, lines[0]), lines.drop_first());
    }
}

/// The shape of what a configuration text sets: every section name is a
/// trimmed piece of one line and its section holds at least one pair (a
/// header alone makes no section); every key is the lower-cased form of a
/// trimmed piece of one line that holds no `=` and does not start with `#`
/// or `;`; every value is a trimmed piece of one line.
pub proof fn law_model_shape(text: Seq<char>)
    ensures
        forall|sec: Seq<char>| #[trigger]
            ini_model(text).contains_key(sec) ==> section_shaped(ini_model(text), sec),
{
    assert(is_line_text(Seq::<char>::empty())) by {
        assert(trim_start(Seq::<char>::empty()) == Seq::<char>::empty());
    }
    lemma_split_lines_single(text);
    lemma_fold_shaped(ini_start(), split_lines(text));
}

/// A line `k=v` whose key part holds no `=` and which is neither a comment
/// nor a header sets, in the section in effect, the key `k` trimmed and
/// lower-cased to the whole of `v` trimmed: the value is everything after
/// the first `=`, inner spaces and further `=` included.
pub proof fn law_assignment_line(st: IniState, k: Seq<char>, v: Seq<char>)
    requires
        !k.contains('='),
        trim(k).len() > 0 ==> trim(k)[0] != '#' && trim(k)[0] != ';',
        !(trim(k).len() > 0 && trim(k)[0] == '[' && trim(v).len() > 0 && trim(v).last() == ']'),
    ensures
        ini_step(st, k + seq!['='] + v) == (IniState {
            sections: set_value(st.sections, st.current, lowercase_of(trim(k)), trim(v)),
            current: st.current,
        }),
{
    let eq = seq!['='];
    let raw = k + eq + v;
    let ks = trim_start(k);
    let ve = trim_end(v);
    assert(raw == k + (eq + v));
    lemma_trim_start_append(k, eq + v);
    assert((eq + v)[0] == '=');
    assert(trim_start(eq + v) == eq + v);
    assert(trim_start(raw) == ks + eq + v) by {
        if ks.len() == 0 {
            assert(ks + eq + v == eq + v);
        } else {
            assert(ks + (eq + v) == ks + eq + v);
        }
    }
    lemma_trim_end_append(ks + eq, v);
    assert((ks + eq).last() == '=');
    assert(trim_end(ks + eq) == ks + eq);
    let line = ks + eq + ve;
    assert(trim(raw) == line);
    let n = ks.len() as int;
    lemma_trim_start_shape(k);
    let a = choose|a: int| 0 <= a <= k.len() && ks == k.subrange(a, k.len() as int);
    assert(!ks.contains('=')) by {
        lemma_no_char_in_subrange(k, a, k.len() as int, '=');
    }
    assert(line.subrange(n, n + 1) == eq);
    assert forall|j: int| 0 <= j < n implies !occurs_at(line, eq, j) by {
        assert(line.subrange(j, j + 1)[0] == ks[j]);
    }
    lemma_find_first_at(line, eq, 0, n);
    assert(line.subrange(0, n) == ks);
    assert(line.subrange(n + 1, line.len() as int) == ve);
    lemma_trim_sides_idempotent(k);
    assert(trim(ks) == trim(k));
    lemma_trim_sides_commute(v);
    lemma_trim_sides_idempotent(trim_start(v));
    assert(trim(ve) == trim(v));
    assert(assignment(line) == Some((trim(k), trim(v))));
    if n > 0 {
        lemma_trim_end_keeps_first(ks);
        assert(line[0] == ks[0]);
    } else {
        assert(line[0] == '=');
    }
    assert(!is_skipped(line));
    assert(section_header(line) is None) by {
        if line.len() >= 2 && line[0] == '[' && line.last() == ']' {
            assert(n > 0);
            lemma_trim_end_keeps_first(ks);
            assert(line[0] == ks[0]);
            assert(ve.len() > 0);
            assert(line.last() == ve.last());
            lemma_trim_end_shape(v);
            lemma_trim_start_keeps_last(ve);
        }
    }
}

/// A text without line breaks is one line.
proof fn lemma_split_one_line(s: Seq<char>)
    requires
        !s.contains('\n'),
    ensures
        split_lines(s) == seq![s],
{
    lemma_find_from(s, seq!['\n'], 0);
    if find(s, seq!['\n']) is Some {
        let i = find(s, seq!['\n'])->0;
        assert(s.subrange(i, i + 1)[0] == s[i]);
    }
}

/// The section that pairs go to at the end of a configuration text: the
/// name in its last header, or the empty name when it has none.
pub open spec fn section_after(text: Seq<char>) -> Seq<char> {
    ini_fold(ini_start(), split_lines(text)).current
}

/// A `k=v` line added at the end of a configuration text sets, in the
/// section in effect there, the key `k` trimmed and lower-cased to the whole
/// of `v` trimmed, whatever the text before it set.
pub proof fn law_value_is_rest_of_line(before: Seq<char>, k: Seq<char>, v: Seq<char>)
    requires
        !k.contains('\n'),
        !v.contains('\n'),
        !k.contains('='),
        trim(k).len() > 0 ==> trim(k)[0] != '#' && trim(k)[0] != ';',
        !(trim(k).len() > 0 && trim(k)[0] == '[' && trim(v).len() > 0 && trim(v).last() == ']'),
    ensures
        lookup(
            ini_model(before + seq!['\n'] + k + seq!['='] + v),
            section_after(before),
            lowercase_of(trim(k)),
        ) == Some(trim(v)),
{
    let nl = seq!['\n'];
    let kv = k + seq!['='] + v;
    assert(before + nl + k + seq!['='] + v == before + nl + kv);
    assert(!kv.contains('\n')) by {
        if kv.contains('\n') {
            let j = choose|j: int| 0 <= j < kv.len() && kv[j] == '\n';
            if j < k.len() {
                assert(k[j] == kv[j]);
            } else if j > k.len() {
                assert(v[j - k.len() - 1] == kv[j]);
            }
        }
    }
    lemma_split_join(before, kv);
    lemma_split_one_line(kv);
    let st = ini_fold(ini_start(), split_lines(before));
    lemma_fold_append(ini_start(), split_lines(before), seq![kv]);
    assert(seq![kv].drop_first().len() == 0);
    assert(ini_fold(st, seq![kv]) == ini_fold(ini_step(st, kv), seq![kv].drop_first()));
    law_assignment_line(st, k, v);
}

/// Under a header `[name]`, a `k=v` line sets the key `k` trimmed and
/// lower-cased to the whole of `v` trimmed, in the section `name` trimmed.
pub proof fn law_value_under_header(name: Seq<char>, k: Seq<char>, v: Seq<char>)
    requires
        !name.contains('\n'),
        !k.contains('\n'),
        !v.contains('\n'),
        !k.contains('='),
        trim(k).len() > 0 ==> trim(k)[0] != '#' && trim(k)[0] != ';',
        !(trim(k).len() > 0 && trim(k)[0] == '[' && trim(v).len() > 0 && trim(v).last() == ']'),
    ensures
        lookup(
            ini_model(seq!['['] + name + seq![']', '\n'] + k + seq!['='] + v),
            trim(name),
            lowercase_of(trim(k)),
        ) == Some(trim(v)),
{
    let h = seq!['['] + name + seq![']'];
    let nl = seq!['\n'];
    assert(seq!['['] + name + seq![']', '\n'] == h + nl);
    assert(!h.contains('\n')) by {
        if h.contains('\n') {
            let j = choose|j: int| 0 <= j < h.len() && h[j] == '\n';
            if 0 < j < h.len() - 1 {
                assert(name[j - 1] == h[j]);
            }
        }
    }
    lemma_split_one_line(h);
    assert(h[0] == '[');
    assert(h.last() == ']');
    assert(trim_start(h) == h);
    assert(trim_end(h) == h);
    assert(h.subrange(1, h.len() - 1) == name);
    assert(section_header(trim(h)) == Some(trim(name)));
    assert(seq![h].drop_first().len() == 0);
    assert(ini_fold(ini_start(), seq![h]) == ini_fold(ini_step(ini_start(), h), seq![h].drop_first()));
    assert(section_after(h) == trim(name));
    law_value_is_rest_of_line(h, k, v);
}

/// Parses a configuration text into its sections and pairs.
pub fn parse_ini(content: &str) -> (r: IniConfig)
    ensures
        r@ == ini_model(content@),
{
    let chars = to_chars(content);
    let mut entries: Vec<IniEntry> = Vec::new();
    let mut current = String::new();
    let mut nl: Vec<char> = Vec::new();
    nl.push('\n');
    assert(nl@ == seq!['\n']);
    let n = chars.len();
    let mut pos: usize = 0;
    assert(chars@.subrange(0, n as int) == chars@);
    loop
        invariant
            pos <= n == chars.len(),
            chars@ == content@,
            nl@ == seq!['\n'],
            ini_model(content@) == ini_fold(
                IniState { sections: entries_map(entries@), current: current@ },
                split_lines(chars@.subrange(pos as int, n as int)),
            ).sections,
        decreases n - pos,
    {
        let ghost rest = chars@.subrange(pos as int, n as int);
        match find_between(&chars, &nl, pos, n) {
            Some(e) => {
                proof {
                    lemma_split_found(rest, e - pos);
                    assert(rest.subrange(0, e - pos) == chars@.subrange(pos as int, e as int));
                    assert(rest.subrange(e - pos + 1, rest.len() as int) == chars@.subrange(
                        e + 1,
                        n as int,
                    ));
                    lemma_fold_cons(
                        IniState { sections: entries_map(entries@), current: current@ },
                        chars@.subrange(pos as int, e as int),
                        split_lines(chars@.subrange(e + 1, n as int)),
                    );
                }
                apply_line(content, &chars, pos, e, &mut entries, &mut current);
                pos = e + 1;
            },
            None => {
                proof {
                    lemma_fold_cons(
                        IniState { sections: entries_map(entries@), current: current@ },
                        rest,
                        Seq::empty(),
                    );
                    assert(seq![rest] + Seq::<Seq<char>>::empty() == seq![rest]);
                }
                apply_line(content, &chars, pos, n, &mut entries, &mut current);
                return IniConfig { entries };
            },
        }
    }
}

} // verus!
