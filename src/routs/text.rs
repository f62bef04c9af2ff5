use vstd::prelude::*;
use vstd::utf8::{valid_utf8, decode_utf8};
use vstd::string::StrSliceExecFns;

verus! {

/// The index of the first `b` in `s`, or `s.len()` if there is none.
pub open spec fn find_byte(s: Seq<u8>, b: u8) -> int
    decreases s.len(),
{
    if s.len() == 0 {
        0
    } else if s[0] == b {
        0
    } else {
        1 + find_byte(s.drop_first(), b)
    }
}

/// An ASCII decimal digit.
pub open spec fn is_digit(c: char) -> bool {
    '0' <= c && c <= '9'
}

/// The value of a string of decimal digits.
pub open spec fn digits_value(s: Seq<char>) -> nat
    decreases s.len(),
{
    if s.len() == 0 {
        0
    } else {
        digits_value(s.drop_last()) * 10 + (s.last() as u32 - 48) as nat
    }
}

/// `s` without one leading `+`.
pub open spec fn unsigned_part(s: Seq<char>) -> Seq<char> {
    if s.len() > 0 && s[0] == '+' {
        s.drop_first()
    } else {
        s
    }
}

/// Every character of `t` is a decimal digit.
pub open spec fn all_digits(t: Seq<char>) -> bool {
    forall|i: int| 0 <= i < t.len() ==> is_digit(#[trigger] t[i])
}

/// What `str::parse::<usize>` gives for `s`: an optional `+`, then one or more
/// decimal digits whose value fits.
pub open spec fn parse_usize(s: Seq<char>) -> Option<usize> {
    let t = unsigned_part(s);
    if t.len() > 0 && all_digits(t) && digits_value(t) <= usize::MAX {
        Some(digits_value(t) as usize)
    } else {
        None
    }
}

/// The text that `b` decodes to, each ill-formed sequence replaced by U+FFFD.
pub uninterp spec fn lossy_text(b: Seq<u8>) -> Seq<char>;

/// Relies on `String::from_utf8_lossy`: the text of the bytes, with ill-formed sequences
/// replaced; valid UTF-8 decodes as itself.
#[verifier::external_body]
pub(crate) fn text_of(b: &[u8]) -> (r: String)
    ensures
        r@ == lossy_text(b@),
        valid_utf8(b@) ==> r@ == decode_utf8(b@),
{
    String::from_utf8_lossy(b).into_owned()
}

/// `find_byte` is the index of the first occurrence, or the length when there is none.
pub proof fn lemma_find_byte(s: Seq<u8>, b: u8)
    ensures
        0 <= find_byte(s, b) <= s.len(),
        forall|j: int| 0 <= j < find_byte(s, b) ==> s[j] != b,
        find_byte(s, b) < s.len() ==> s[find_byte(s, b)] == b,
    decreases s.len(),
{
    if s.len() > 0 && s[0] != b {
        lemma_find_byte(s.drop_first(), b);
        assert forall|j: int| 0 <= j < find_byte(s, b) implies s[j] != b by {
            if j > 0 {
                assert(s[j] == s.drop_first()[j - 1]);
            }
        }
    }
}

/// A prefix of a digit string has no larger value than the whole.
pub proof fn lemma_digits_prefix(t: Seq<char>, j: int)
    requires
        0 <= j <= t.len(),
        forall|i: int| 0 <= i < t.len() ==> is_digit(#[trigger] t[i]),
    ensures
        digits_value(t.take(j)) <= digits_value(t),
    decreases t.len(),
{
    if j < t.len() {
        let d = t.drop_last();
        assert(d.take(j) =~= t.take(j));
        lemma_digits_prefix(d, j);
    } else {
        assert(t.take(j) =~= t);
    }
}

/// The first index in `from..to` that holds `b`, or `to`.
pub(crate) fn find_byte_in(s: &[u8], from: usize, to: usize, b: u8) -> (r: usize)
    requires
        from <= to <= s@.len(),
    ensures
        from <= r <= to,
        r - from == find_byte(s@.subrange(from as int, to as int), b),
{
    let mut i: usize = from;
    while i < to && s[i] != b
        invariant
            from <= i <= to,
            to <= s@.len(),
            forall|j: int| from <= j < i ==> s@[j] != b,
        decreases to - i,
    {
        i = i + 1;
    }
    proof {
        let t = s@.subrange(from as int, to as int);
        lemma_find_byte(t, b);
        let r = find_byte(t, b);
        if r < i - from {
            assert(t[r] == s@[from + r]);
        }
        if r > i - from {
            assert(t[i - from] == s@[i as int]);
        }
    }
    i
}

/// Parses `s[from..to]` as an unsigned machine integer.
pub(crate) fn parse_usize_in(s: &str, from: usize, to: usize) -> (r: Option<usize>)
    requires
        from <= to <= s@.len(),
    ensures
        r == parse_usize(s@.subrange(from as int, to as int)),
{
    let ghost whole = s@.subrange(from as int, to as int);
    let mut a: usize = from;
    if from < to && s.get_char(from) == '+' {
        a = from + 1;
    }
    let ghost t = s@.subrange(a as int, to as int);
    proof {
        if whole.len() > 0 && whole[0] == '+' {
            assert(t =~= whole.drop_first());
        } else {
            assert(t =~= whole);
        }
    }
    if a == to {
        return None;
    }
    let mut v: usize = 0;
    let mut i: usize = a;
    while i < to
        invariant
            a <= i <= to,
            to <= s@.len(),
            t == s@.subrange(a as int, to as int),
            whole == s@.subrange(from as int, to as int),
            t == unsigned_part(whole),
            t.len() > 0,
            forall|j: int| a <= j < i ==> is_digit(#[trigger] s@[j]),
            v as nat == digits_value(t.take(i - a)),
        decreases to - i,
    {
        let c = s.get_char(i);
        if c < '0' || c > '9' {
            assert(t[i - a] == s@[i as int]);
            assert(!is_digit(t[i - a]));
            return None;
        }
        proof {
            assert(t.take(i - a + 1).drop_last() =~= t.take(i - a));
        }
        let d = (c as u32 - 48) as usize;
        if v > (usize::MAX - d) / 10 {
            proof {
                let k = i - a + 1;
                assert(digits_value(t.take(k)) == v * 10 + d);
                assert(v * 10 + d > usize::MAX) by (nonlinear_arith)
                    requires v > (usize::MAX - d) / 10, d <= 9;
                if all_digits(t) {
                    lemma_digits_prefix(t, k);
                }
            }
            return None;
        }
        assert(v * 10 + d <= usize::MAX) by (nonlinear_arith)
            requires v <= (usize::MAX - d) / 10, d <= 9;
        v = v * 10 + d;
        i = i + 1;
    }
    assert(t.take(i - a) =~= t);
    assert forall|j: int| 0 <= j < t.len() implies is_digit(#[trigger] t[j]) by {
        assert(t[j] == s@[a + j]);
    }
    Some(v)
}

/// Unicode white space, as `char::is_whitespace` defines it (the `White_Space` property).
pub open spec fn is_space(c: char) -> bool {
    ('\u{9}' <= c && c <= '\u{d}') || c == ' ' || c == '\u{85}' || c == '\u{a0}' || c == '\u{1680}'
        || ('\u{2000}' <= c && c <= '\u{200a}') || c == '\u{2028}' || c == '\u{2029}'
        || c == '\u{202f}' || c == '\u{205f}' || c == '\u{3000}'
}

/// The index of the first white-space character of `t`, or `t.len()` if there is none.
pub open spec fn find_space(t: Seq<char>) -> int
    decreases t.len(),
{
    if t.len() == 0 {
        0
    } else if is_space(t[0]) {
        0
    } else {
        1 + find_space(t.drop_first())
    }
}

/// The index of the first `c` in `t`, or `t.len()` if there is none.
pub open spec fn find_char(t: Seq<char>, c: char) -> int
    decreases t.len(),
{
    if t.len() == 0 {
        0
    } else if t[0] == c {
        0
    } else {
        1 + find_char(t.drop_first(), c)
    }
}

/// `t` without its leading white space.
pub open spec fn trim_start_chars(t: Seq<char>) -> Seq<char>
    decreases t.len(),
{
    if t.len() > 0 && is_space(t[0]) {
        trim_start_chars(t.drop_first())
    } else {
        t
    }
}

/// `t` without its trailing white space.
pub open spec fn trim_end_chars(t: Seq<char>) -> Seq<char>
    decreases t.len(),
{
    if t.len() > 0 && is_space(t.last()) {
        trim_end_chars(t.drop_last())
    } else {
        t
    }
}

/// `t` without leading and trailing white space, as `str::trim` gives it.
pub open spec fn trim_chars(t: Seq<char>) -> Seq<char> {
    trim_end_chars(trim_start_chars(t))
}

/// `find_space` is the index of the first white space, or the length when there is none.
pub proof fn lemma_find_space(t: Seq<char>)
    ensures
        0 <= find_space(t) <= t.len(),
        forall|j: int| 0 <= j < find_space(t) ==> !is_space(t[j]),
        find_space(t) < t.len() ==> is_space(t[find_space(t)]),
    decreases t.len(),
{
    if t.len() > 0 && !is_space(t[0]) {
        lemma_find_space(t.drop_first());
        assert forall|j: int| 0 <= j < find_space(t) implies !is_space(t[j]) by {
            if j > 0 {
                assert(t[j] == t.drop_first()[j - 1]);
            }
        }
    }
}

/// `find_char` is the index of the first occurrence, or the length when there is none.
pub proof fn lemma_find_char(t: Seq<char>, c: char)
    ensures
        0 <= find_char(t, c) <= t.len(),
        forall|j: int| 0 <= j < find_char(t, c) ==> t[j] != c,
        find_char(t, c) < t.len() ==> t[find_char(t, c)] == c,
    decreases t.len(),
{
    if t.len() > 0 && t[0] != c {
        lemma_find_char(t.drop_first(), c);
        assert forall|j: int| 0 <= j < find_char(t, c) implies t[j] != c by {
            if j > 0 {
                assert(t[j] == t.drop_first()[j - 1]);
            }
        }
    }
}

/// Dropping leading white space drops exactly the white-space prefix.
pub proof fn lemma_trim_start_chars(t: Seq<char>, k: int)
    requires
        0 <= k <= t.len(),
        forall|j: int| 0 <= j < k ==> is_space(t[j]),
        k == t.len() || !is_space(t[k]),
    ensures
        trim_start_chars(t) == t.skip(k),
    decreases k,
{
    if k == 0 {
        assert(t.skip(0) =~= t);
    } else {
        let u = t.drop_first();
        assert forall|j: int| 0 <= j < k - 1 implies is_space(u[j]) by {
            assert(u[j] == t[j + 1]);
        }
        lemma_trim_start_chars(u, k - 1);
        assert(u.skip(k - 1) =~= t.skip(k));
    }
}

/// Dropping trailing white space drops exactly the white-space suffix.
pub proof fn lemma_trim_end_chars(t: Seq<char>, m: int)
    requires
        0 <= m <= t.len(),
        forall|j: int| m <= j < t.len() ==> is_space(t[j]),
        m == 0 || !is_space(t[m - 1]),
    ensures
        trim_end_chars(t) == t.take(m),
    decreases t.len() - m,
{
    if m == t.len() {
        assert(t.take(m) =~= t);
    } else {
        let u = t.drop_last();
        lemma_trim_end_chars(u, m);
        assert(u.take(m) =~= t.take(m));
    }
}

/// Whether `c` is Unicode white space.
pub(crate) fn is_space_char(c: char) -> (r: bool)
    ensures
        r == is_space(c),
{
    ('\u{9}' <= c && c <= '\u{d}') || c == ' ' || c == '\u{85}' || c == '\u{a0}' || c == '\u{1680}'
        || ('\u{2000}' <= c && c <= '\u{200a}') || c == '\u{2028}' || c == '\u{2029}'
        || c == '\u{202f}' || c == '\u{205f}' || c == '\u{3000}'
}

/// The first index in `from..to` of `t` that holds white space, or `to`.
pub(crate) fn find_space_in(t: &str, from: usize, to: usize) -> (r: usize)
    requires
        from <= to <= t@.len(),
    ensures
        from <= r <= to,
        r - from == find_space(t@.subrange(from as int, to as int)),
{
    let mut i: usize = from;
    while i < to && !is_space_char(t.get_char(i))
        invariant
            from <= i <= to,
            to <= t@.len(),
            forall|j: int| from <= j < i ==> !is_space(t@[j]),
        decreases to - i,
    {
        i = i + 1;
    }
    proof {
        let u = t@.subrange(from as int, to as int);
        lemma_find_space(u);
        let r = find_space(u);
        if r < i - from {
            assert(u[r] == t@[from + r]);
        }
        if r > i - from {
            assert(u[i - from] == t@[i as int]);
        }
    }
    i
}

/// The first index in `from..to` of `t` that holds `c`, or `to`.
pub(crate) fn find_char_in(t: &str, from: usize, to: usize, c: char) -> (r: usize)
    requires
        from <= to <= t@.len(),
    ensures
        from <= r <= to,
        r - from == find_char(t@.subrange(from as int, to as int), c),
{
    let mut i: usize = from;
    while i < to && t.get_char(i) != c
        invariant
            from <= i <= to,
            to <= t@.len(),
            forall|j: int| from <= j < i ==> t@[j] != c,
        decreases to - i,
    {
        i = i + 1;
    }
    proof {
        let u = t@.subrange(from as int, to as int);
        lemma_find_char(u, c);
        let r = find_char(u, c);
        if r < i - from {
            assert(u[r] == t@[from + r]);
        }
        if r > i - from {
            assert(u[i - from] == t@[i as int]);
        }
    }
    i
}

/// The start of `t[from..to]` with leading white space dropped.
pub(crate) fn trim_start_str(t: &str, from: usize, to: usize) -> (r: usize)
    requires
        from <= to <= t@.len(),
    ensures
        from <= r <= to,
        t@.subrange(r as int, to as int) == trim_start_chars(t@.subrange(from as int, to as int)),
{
    let mut i: usize = from;
    while i < to && is_space_char(t.get_char(i))
        invariant
            from <= i <= to,
            to <= t@.len(),
            forall|j: int| from <= j < i ==> is_space(t@[j]),
        decreases to - i,
    {
        i = i + 1;
    }
    proof {
        let u = t@.subrange(from as int, to as int);
        assert forall|j: int| 0 <= j < i - from implies is_space(u[j]) by {
            assert(u[j] == t@[from + j]);
        }
        if i < to {
            assert(u[i - from] == t@[i as int]);
        }
        lemma_trim_start_chars(u, i - from);
        assert(u.skip(i - from) =~= t@.subrange(i as int, to as int));
    }
    i
}

/// The bounds of `t[from..to]` with leading and trailing white space dropped.
pub(crate) fn trim_str(t: &str, from: usize, to: usize) -> (r: (usize, usize))
    requires
        from <= to <= t@.len(),
    ensures
        from <= r.0 <= r.1 <= to,
        t@.subrange(r.0 as int, r.1 as int) == trim_chars(t@.subrange(from as int, to as int)),
{
    let a = trim_start_str(t, from, to);
    let mut e: usize = to;
    while e > a && is_space_char(t.get_char(e - 1))
        invariant
            a <= e <= to,
            to <= t@.len(),
            forall|j: int| e <= j < to ==> is_space(t@[j]),
        decreases e,
    {
        e = e - 1;
    }
    proof {
        let u = t@.subrange(a as int, to as int);
        assert forall|j: int| e - a <= j < u.len() implies is_space(u[j]) by {
            assert(u[j] == t@[a + j]);
        }
        if e > a {
            assert(u[e - a - 1] == t@[e - 1]);
        }
        lemma_trim_end_chars(u, e - a);
        assert(u.take(e - a) =~= t@.subrange(a as int, e as int));
    }
    (a, e)
}

/// The text `t[from..to]` as a new string.
pub(crate) fn sub_text(t: &str, from: usize, to: usize) -> (r: String)
    requires
        from <= to <= t@.len(),
    ensures
        r@ == t@.subrange(from as int, to as int),
{
    t.substring_char(from, to).to_owned()
}

} // verus!
