//! Character-level helpers shared by the parsers: Unicode whitespace,
//! trimming, and substring search, each with a specification over `Seq<char>`.
use vstd::prelude::*;

verus! {

/// The Unicode `White_Space` property, which is what `char::is_whitespace`
/// tests and therefore what `str::trim` strips.
pub open spec fn is_ws(c: char) -> bool {
    ||| ('\u{9}' <= c && c <= '\u{d}')
    ||| c == ' '
    ||| c == '\u{85}'
    ||| c == '\u{a0}'
    ||| c == '\u{1680}'
    ||| ('\u{2000}' <= c && c <= '\u{200a}')
    ||| c == '\u{2028}'
    ||| c == '\u{2029}'
    ||| c == '\u{202f}'
    ||| c == '\u{205f}'
    ||| c == '\u{3000}'
}

/// Executable test for the `White_Space` property.
pub fn is_whitespace(c: char) -> (b: bool)
    ensures
        b == is_ws(c),
{
    ('\u{9}' <= c && c <= '\u{d}') || c == ' ' || c == '\u{85}' || c == '\u{a0}' || c
        == '\u{1680}' || ('\u{2000}' <= c && c <= '\u{200a}') || c == '\u{2028}' || c
        == '\u{2029}' || c == '\u{202f}' || c == '\u{205f}' || c == '\u{3000}'
}

/// `s` with its leading whitespace removed.
pub open spec fn trim_start(s: Seq<char>) -> Seq<char>
    decreases s.len(),
{
    if s.len() > 0 && is_ws(s[0]) {
        trim_start(s.drop_first())
    } else {
        s
    }
}

/// `s` with its trailing whitespace removed.
pub open spec fn trim_end(s: Seq<char>) -> Seq<char>
    decreases s.len(),
{
    if s.len() > 0 && is_ws(s.last()) {
        trim_end(s.drop_last())
    } else {
        s
    }
}

/// `s` with leading and trailing whitespace removed, as `str::trim` does.
pub open spec fn trim(s: Seq<char>) -> Seq<char> {
    trim_end(trim_start(s))
}

/// A trimmed sequence neither starts nor ends with whitespace, and is a
/// contiguous piece of the original.
pub proof fn lemma_trim_shape(s: Seq<char>)
    ensures
        trim(s).len() > 0 ==> !is_ws(trim(s)[0]) && !is_ws(trim(s).last()),
        exists|a: int, b: int| 0 <= a <= b <= s.len() && trim(s) == s.subrange(a, b),
    decreases s.len(),
{
    lemma_trim_start_shape(s);
    let t = trim_start(s);
    let a = choose|a: int| 0 <= a <= s.len() && t == s.subrange(a, s.len() as int);
    lemma_trim_end_shape(t);
    let b = choose|b: int| 0 <= b <= t.len() && trim_end(t) == t.subrange(0, b);
    assert(trim(s) == s.subrange(a, a + b));
    if trim(s).len() > 0 {
        assert(trim(s)[0] == t[0]);
    }
}

/// Trimming the start keeps a suffix, which starts with a non-whitespace
/// character unless it is empty.
pub proof fn lemma_trim_start_shape(s: Seq<char>)
    ensures
        trim_start(s).len() > 0 ==> !is_ws(trim_start(s)[0]),
        exists|a: int| 0 <= a <= s.len() && trim_start(s) == s.subrange(a, s.len() as int),
    decreases s.len(),
{
    if s.len() > 0 && is_ws(s[0]) {
        lemma_trim_start_shape(s.drop_first());
        let a = choose|a: int|
            0 <= a <= s.drop_first().len() && trim_start(s.drop_first()) == s.drop_first().subrange(
                a,
                s.drop_first().len() as int,
            );
        assert(trim_start(s) == s.subrange(a + 1, s.len() as int));
    } else {
        assert(trim_start(s) == s.subrange(0, s.len() as int));
    }
}

/// Trimming the end keeps a prefix, which ends with a non-whitespace
/// character unless it is empty.
pub proof fn lemma_trim_end_shape(s: Seq<char>)
    ensures
        trim_end(s).len() > 0 ==> !is_ws(trim_end(s).last()),
        exists|b: int| 0 <= b <= s.len() && trim_end(s) == s.subrange(0, b),
    decreases s.len(),
{
    if s.len() > 0 && is_ws(s.last()) {
        lemma_trim_end_shape(s.drop_last());
        let b = choose|b: int|
            0 <= b <= s.drop_last().len() && trim_end(s.drop_last()) == s.drop_last().subrange(
                0,
                b,
            );
        assert(trim_end(s) == s.subrange(0, b));
    } else {
        assert(trim_end(s) == s.subrange(0, s.len() as int));
    }
}

/// Trimming the start of `w + y` trims `w` alone, unless `w` is all
/// whitespace, in which case it trims `y`.
pub proof fn lemma_trim_start_append(w: Seq<char>, y: Seq<char>)
    ensures
        trim_start(w + y) == (if trim_start(w).len() > 0 {
            trim_start(w) + y
        } else {
            trim_start(y)
        }),
    decreases w.len(),
{
    if w.len() == 0 {
        assert(w + y == y);
    } else {
        assert((w + y)[0] == w[0]);
        if is_ws(w[0]) {
            assert((w + y).drop_first() == w.drop_first() + y);
            lemma_trim_start_append(w.drop_first(), y);
        }
    }
}

/// Trimming the end of `x + y` trims `y` alone, unless `y` is all
/// whitespace, in which case it trims `x`.
pub proof fn lemma_trim_end_append(x: Seq<char>, y: Seq<char>)
    ensures
        trim_end(x + y) == (if trim_end(y).len() > 0 {
            x + trim_end(y)
        } else {
            trim_end(x)
        }),
    decreases y.len(),
{
    if y.len() == 0 {
        assert(x + y == x);
    } else {
        assert((x + y).last() == y.last());
        if is_ws(y.last()) {
            assert((x + y).drop_last() == x + y.drop_last());
            lemma_trim_end_append(x, y.drop_last());
        }
    }
}

/// Trimming the start twice is trimming it once; so is trimming the end.
pub proof fn lemma_trim_sides_idempotent(s: Seq<char>)
    ensures
        trim_start(trim_start(s)) == trim_start(s),
        trim_end(trim_end(s)) == trim_end(s),
{
    lemma_trim_start_shape(s);
    lemma_trim_end_shape(s);
}

/// A sequence that starts with a non-whitespace character keeps it, and
/// stays non-empty, when its end is trimmed.
pub proof fn lemma_trim_end_keeps_first(t: Seq<char>)
    requires
        t.len() > 0,
        !is_ws(t[0]),
    ensures
        trim_end(t).len() > 0,
        trim_end(t)[0] == t[0],
    decreases t.len(),
{
    if is_ws(t.last()) {
        assert(t.len() > 1);
        assert(t.drop_last()[0] == t[0]);
        lemma_trim_end_keeps_first(t.drop_last());
    }
}

/// A sequence that ends with a non-whitespace character keeps it, and
/// stays non-empty, when its start is trimmed.
pub proof fn lemma_trim_start_keeps_last(t: Seq<char>)
    requires
        t.len() > 0,
        !is_ws(t.last()),
    ensures
        trim_start(t).len() > 0,
        trim_start(t).last() == t.last(),
    decreases t.len(),
{
    if is_ws(t[0]) {
        assert(t.len() > 1);
        assert(t.drop_first().last() == t.last());
        lemma_trim_start_keeps_last(t.drop_first());
    }
}

/// Trimming the start and the end can be done in either order.
pub proof fn lemma_trim_sides_commute(v: Seq<char>)
    ensures
        trim_start(trim_end(v)) == trim_end(trim_start(v)),
    decreases v.len(),
{
    if v.len() == 0 {
    } else if !is_ws(v.last()) {
        lemma_trim_start_shape(v);
        if trim_start(v).len() > 0 {
            lemma_trim_start_keeps_last(v);
        }
    } else {
        let w = v.drop_last();
        let c = v.last();
        lemma_trim_sides_commute(w);
        assert(v == w + seq![c]);
        lemma_trim_start_append(w, seq![c]);
        if trim_start(w).len() > 0 {
            assert((trim_start(w) + seq![c]).drop_last() == trim_start(w));
            assert((trim_start(w) + seq![c]).last() == c);
        } else {
            assert(seq![c].drop_first().len() == 0);
            assert(trim_start(seq![c]) == trim_start(seq![c].drop_first()));
        }
    }
}

/// The characters of `s`, in order.
pub fn to_chars(s: &str) -> (r: Vec<char>)
    ensures
        r@ == s@,
{
    let mut v: Vec<char> = Vec::new();
    for c in it: s.chars()
        invariant
            v@ == it.seq().take(it.index() as int),
            it.seq() == s@,
    {
        v.push(c);
    }
    v
}

/// Bounds `(a, b)` inside `lo..hi` such that `s[a..b]` is `s[lo..hi]` trimmed.
pub fn trim_range(s: &Vec<char>, lo: usize, hi: usize) -> (r: (usize, usize))
    requires
        lo <= hi <= s.len(),
    ensures
        lo <= r.0 <= r.1 <= hi,
        s@.subrange(r.0 as int, r.1 as int) == trim(s@.subrange(lo as int, hi as int)),
{
    let mut a = lo;
    while a < hi && is_whitespace(s[a])
        invariant
            lo <= a <= hi <= s.len(),
            trim_start(s@.subrange(lo as int, hi as int)) == trim_start(
                s@.subrange(a as int, hi as int),
            ),
        decreases hi - a,
    {
        assert(s@.subrange(a as int, hi as int).drop_first() == s@.subrange(a + 1, hi as int));
        a = a + 1;
    }
    assert(trim_start(s@.subrange(a as int, hi as int)) == s@.subrange(a as int, hi as int));
    let mut b = hi;
    while b > a && is_whitespace(s[b - 1])
        invariant
            lo <= a <= b <= hi <= s.len(),
            trim(s@.subrange(lo as int, hi as int)) == trim_end(s@.subrange(a as int, b as int)),
        decreases b - a,
    {
        assert(s@.subrange(a as int, b as int).drop_last() == s@.subrange(a as int, b - 1));
        b = b - 1;
    }
    (a, b)
}

/// Whether `pat` occurs in `s` starting at position `i`.
pub open spec fn occurs_at(s: Seq<char>, pat: Seq<char>, i: int) -> bool {
    0 <= i && i + pat.len() <= s.len() && s.subrange(i, i + pat.len()) == pat
}

/// The first position at or after `i` where `pat` occurs in `s`.
pub open spec fn find_from(s: Seq<char>, pat: Seq<char>, i: int) -> Option<int>
    decreases s.len() + 1 - i,
{
    if i < 0 || i + pat.len() > s.len() {
        None
    } else if occurs_at(s, pat, i) {
        Some(i)
    } else {
        find_from(s, pat, i + 1)
    }
}

/// The first position where `pat` occurs in `s`, as `str::find` reports it
/// (counted in characters).
pub open spec fn find(s: Seq<char>, pat: Seq<char>) -> Option<int> {
    find_from(s, pat, 0)
}

/// What `find_from` reports is an occurrence, and no earlier one exists.
pub proof fn lemma_find_from(s: Seq<char>, pat: Seq<char>, i: int)
    requires
        0 <= i,
    ensures
        match find_from(s, pat, i) {
            Some(p) => i <= p && occurs_at(s, pat, p) && forall|j: int|
                i <= j < p ==> !occurs_at(s, pat, j),
            None => forall|j: int| i <= j ==> !occurs_at(s, pat, j),
        },
    decreases s.len() + 1 - i,
{
    if i + pat.len() > s.len() {
    } else if occurs_at(s, pat, i) {
    } else {
        lemma_find_from(s, pat, i + 1);
    }
}

/// An occurrence with none before it (from `i` on) is what `find_from` reports.
pub proof fn lemma_find_first_at(s: Seq<char>, pat: Seq<char>, i: int, p: int)
    requires
        0 <= i <= p,
        occurs_at(s, pat, p),
        forall|j: int| i <= j < p ==> !occurs_at(s, pat, j),
    ensures
        find_from(s, pat, i) == Some(p),
    decreases p - i,
{
    if i < p {
        lemma_find_first_at(s, pat, i + 1, p);
    }
}

/// Text appended after the first occurrence of a pattern does not move it.
pub proof fn lemma_find_extend(s: Seq<char>, t: Seq<char>, pat: Seq<char>)
    requires
        find(s, pat) is Some,
    ensures
        find(s + t, pat) == find(s, pat),
{
    lemma_find_from(s, pat, 0);
    let p = find(s, pat)->0;
    assert((s + t).subrange(p, p + pat.len()) == s.subrange(p, p + pat.len()));
    assert forall|j: int| 0 <= j < p implies !occurs_at(s + t, pat, j) by {
        assert(!occurs_at(s, pat, j));
        assert((s + t).subrange(j, j + pat.len()) == s.subrange(j, j + pat.len()));
    }
    lemma_find_first_at(s + t, pat, 0, p);
}

/// Whether `pat` occurs in `s` at position `i`, for `i + pat.len() <= hi`.
fn matches_at(s: &Vec<char>, pat: &Vec<char>, i: usize, hi: usize) -> (b: bool)
    requires
        hi <= s.len(),
        i <= hi,
    ensures
        b == (i + pat.len() <= hi && s@.subrange(i as int, i + pat.len()) == pat@),
{
    if pat.len() > hi - i {
        return false;
    }
    let mut k: usize = 0;
    while k < pat.len()
        invariant
            i + pat.len() <= hi <= s.len(),
            k <= pat.len(),
            forall|j: int| 0 <= j < k ==> s@[i + j] == pat@[j],
        decreases pat.len() - k,
    {
        if s[i + k] != pat[k] {
            assert(s@.subrange(i as int, i + pat.len())[k as int] != pat@[k as int]);
            return false;
        }
        k = k + 1;
    }
    assert(s@.subrange(i as int, i + pat.len()) == pat@);
    true
}

/// The first occurrence of `pat` inside `s[lo..hi]`, as an index into `s`.
pub fn find_between(s: &Vec<char>, pat: &Vec<char>, lo: usize, hi: usize) -> (r: Option<usize>)
    requires
        lo <= hi <= s.len(),
    ensures
        match r {
            Some(a) => lo <= a && find(s@.subrange(lo as int, hi as int), pat@) == Some(a - lo),
            None => find(s@.subrange(lo as int, hi as int), pat@) is None,
        },
{
    let ghost sub = s@.subrange(lo as int, hi as int);
    let mut i = lo;
    while i <= hi
        invariant
            lo <= i,
            hi <= s.len(),
            sub == s@.subrange(lo as int, hi as int),
            find(sub, pat@) == find_from(sub, pat@, i - lo),
        decreases hi + 1 - i,
    {
        let m = matches_at(s, pat, i, hi);
        proof {
            if i + pat.len() <= hi {
                assert(sub.subrange(i - lo, i - lo + pat.len()) == s@.subrange(
                    i as int,
                    i + pat.len(),
                ));
            }
        }
        if m {
            return Some(i);
        }
        proof {
            if pat.len() == 0 {
                assert(s@.subrange(i as int, i as int) =~= pat@);
            }
        }
        if pat.len() > hi - i {
            return None;
        }
        i = i + 1;
    }
    None
}

/// Whether two texts are the same sequence of characters.
pub fn same_text(a: &str, b: &str) -> (r: bool)
    ensures
        r == (a@ == b@),
{
    String::from_str(a) == String::from_str(b)
}

/// Appends one character to a string (`String::push`).
#[verifier::external_body]
pub(crate) fn push_char(s: &mut String, c: char)
    ensures
        final(s)@ == old(s)@.push(c),
{
    s.push(c);
}

/// What `str::to_lowercase` makes of a text: each character replaced by its
/// Unicode lowercase mapping.
pub uninterp spec fn lowercase_of(s: Seq<char>) -> Seq<char>;

/// `str::to_lowercase`. The contract claims only that the result depends on
/// `s` alone; the Unicode case tables are not stated.
#[verifier::external_body]
pub(crate) fn to_lowercase(s: &str) -> (r: String)
    ensures
        r@ == lowercase_of(s@),
{
    s.to_lowercase()
}

/// The ASCII digit for `n < 10`, or the lowercase letter for `10 <= n < 16`.
pub open spec fn hex_digit(n: int) -> char {
    if n < 10 {
        ('0' as int + n) as char
    } else {
        ('a' as int + n - 10) as char
    }
}

/// Executable form of `hex_digit`.
pub fn hex_digit_char(n: u8) -> (c: char)
    requires
        n < 16,
    ensures
        c == hex_digit(n as int),
{
    if n < 10 {
        (48u8 + n) as char
    } else {
        (87u8 + n) as char
    }
}

/// The decimal digits of `n`, most significant first, without leading zeros
/// (a single `0` for zero), as `{}` formats an unsigned integer.
pub open spec fn decimal(n: nat) -> Seq<char>
    decreases n,
{
    if n < 10 {
        seq![hex_digit(n as int)]
    } else {
        decimal(n / 10).push(hex_digit((n % 10) as int))
    }
}

/// Appends the decimal digits of `n`.
pub fn push_decimal(s: &mut String, n: u64)
    ensures
        final(s)@ == old(s)@ + decimal(n as nat),
    decreases n,
{
    if n >= 10 {
        push_decimal(s, n / 10);
    }
    let d = (n % 10) as u8;
    let c = hex_digit_char(d);
    push_char(s, c);
}

} // verus!
