//! Whitespace, trimming and ASCII case of caller-supplied text.
use vstd::prelude::*;

verus! {

/// Whether a character has the Unicode `White_Space` property: tab, line
/// feed, vertical tab, form feed, carriage return, space, next line,
/// no-break space, ogham space mark, the spaces U+2000 to U+200A, line
/// separator, paragraph separator, narrow no-break space, medium
/// mathematical space and ideographic space (the characters that
/// `char::is_whitespace` reports).
pub open spec fn unicode_white_space(c: char) -> bool {
    let u = c as u32;
    ||| 0x09 <= u <= 0x0d
    ||| u == 0x20
    ||| u == 0x85
    ||| u == 0xa0
    ||| u == 0x1680
    ||| 0x2000 <= u <= 0x200a
    ||| u == 0x2028
    ||| u == 0x2029
    ||| u == 0x202f
    ||| u == 0x205f
    ||| u == 0x3000
}

/// Whether a character is whitespace.
pub fn char_is_whitespace(c: char) -> (r: bool)
    ensures
        r == unicode_white_space(c),
{
    let u = c as u32;
    (0x09 <= u && u <= 0x0d) || u == 0x20 || u == 0x85 || u == 0xa0 || u == 0x1680 || (0x2000 <= u && u <= 0x200a)
        || u == 0x2028 || u == 0x2029 || u == 0x202f || u == 0x205f || u == 0x3000
}

/// A string is blank when every character is whitespace (so trimming it
/// leaves nothing).
pub open spec fn spec_is_blank(s: Seq<char>) -> bool {
    forall|i: int| 0 <= i < s.len() ==> unicode_white_space(#[trigger] s[i])
}

/// Whether the string is empty or all whitespace.
pub fn is_blank(s: &str) -> (r: bool)
    ensures
        r == spec_is_blank(s@),
{
    let n = s.unicode_len();
    let mut i: usize = 0;
    while i < n
        invariant
            i <= n,
            n == s@.len(),
            forall|j: int| 0 <= j < i ==> unicode_white_space(#[trigger] s@[j]),
        decreases n - i,
    {
        let c = s.get_char(i);
        if !char_is_whitespace(c) {
            return false;
        }
        i = i + 1;
    }
    true
}

/// Position of the first non-whitespace character from `i` on, or the
/// length.
pub open spec fn first_non_white(s: Seq<char>, i: int) -> int
    decreases s.len() - i,
{
    if i < 0 || i >= s.len() {
        s.len() as int
    } else if !unicode_white_space(s[i]) {
        i
    } else {
        first_non_white(s, i + 1)
    }
}

/// One past the last non-whitespace character before `j`, or zero.
pub open spec fn last_non_white_end(s: Seq<char>, j: int) -> int
    decreases j,
{
    if j <= 0 || j > s.len() {
        0
    } else if !unicode_white_space(s[j - 1]) {
        j
    } else {
        last_non_white_end(s, j - 1)
    }
}

/// The string without leading and trailing whitespace.
pub open spec fn spec_trimmed(s: Seq<char>) -> Seq<char> {
    let a = first_non_white(s, 0);
    let b = last_non_white_end(s, s.len() as int);
    if a >= b {
        Seq::empty()
    } else {
        s.subrange(a, b)
    }
}

/// ASCII `a` to `z` become `A` to `Z`; every other character is kept.
pub open spec fn spec_ascii_upper(c: char) -> char {
    if 'a' <= c && c <= 'z' {
        ((c as u32) - 32) as char
    } else {
        c
    }
}

/// The string trimmed and in ASCII upper case.
pub open spec fn spec_upper_trimmed(s: Seq<char>) -> Seq<char> {
    spec_trimmed(s).map_values(|c: char| spec_ascii_upper(c))
}

/// ASCII upper case of one character.
pub fn ascii_upper(c: char) -> (r: char)
    ensures
        r == spec_ascii_upper(c),
{
    if 'a' <= c && c <= 'z' {
        let code = (c as u32) - 32;
        assert(0x41 <= code <= 0x5a);
        code as u8 as char
    } else {
        c
    }
}

proof fn lemma_first_non_white(s: Seq<char>, i: int)
    requires
        0 <= i <= s.len(),
    ensures
        i <= first_non_white(s, i) <= s.len(),
        forall|k: int| i <= k < first_non_white(s, i) ==> unicode_white_space(#[trigger] s[k]),
        first_non_white(s, i) < s.len() ==> !unicode_white_space(s[first_non_white(s, i)]),
    decreases s.len() - i,
{
    if i < s.len() && unicode_white_space(s[i]) {
        lemma_first_non_white(s, i + 1);
    }
}

proof fn lemma_last_non_white_end(s: Seq<char>, j: int)
    requires
        0 <= j <= s.len(),
    ensures
        0 <= last_non_white_end(s, j) <= j,
        forall|k: int| last_non_white_end(s, j) <= k < j ==> unicode_white_space(#[trigger] s[k]),
        last_non_white_end(s, j) > 0 ==> !unicode_white_space(s[last_non_white_end(s, j) - 1]),
    decreases j,
{
    if j > 0 && unicode_white_space(s[j - 1]) {
        lemma_last_non_white_end(s, j - 1);
    }
}

/// The characters of `s` without leading and trailing whitespace.
pub fn trimmed_chars(s: &str) -> (r: Vec<char>)
    ensures
        r@ == spec_trimmed(s@),
{
    let n = s.unicode_len();
    let ghost t = s@;
    let mut start: usize = 0;
    while start < n
        invariant_except_break
            start <= n,
            n == t.len(),
            t == s@,
            first_non_white(t, 0) == first_non_white(t, start as int),
        ensures
            start <= n,
            first_non_white(t, 0) == first_non_white(t, start as int),
            start < n ==> !unicode_white_space(t[start as int]),
        decreases n - start,
    {
        if !char_is_whitespace(s.get_char(start)) {
            break;
        }
        start = start + 1;
    }
    let mut end: usize = n;
    while end > start
        invariant_except_break
            start <= end <= n,
            n == t.len(),
            t == s@,
            start < n ==> !unicode_white_space(t[start as int]),
            last_non_white_end(t, n as int) == last_non_white_end(t, end as int),
            forall|k: int| end <= k < n ==> unicode_white_space(#[trigger] t[k]),
        ensures
            start <= end <= n,
            last_non_white_end(t, n as int) == last_non_white_end(t, end as int),
            end > start ==> !unicode_white_space(t[end - 1]),
            start < n ==> end > start,
        decreases end,
    {
        if !char_is_whitespace(s.get_char(end - 1)) {
            break;
        }
        end = end - 1;
    }
    proof {
        lemma_first_non_white(t, start as int);
        lemma_last_non_white_end(t, end as int);
        lemma_last_non_white_end(t, n as int);
        if start < n {
            assert(first_non_white(t, start as int) == start);
            assert(last_non_white_end(t, end as int) == end);
        } else {
            assert(first_non_white(t, start as int) == n);
        }
    }
    let mut out: Vec<char> = Vec::new();
    let mut i: usize = start;
    while i < end
        invariant
            start <= i <= end <= n,
            n == t.len(),
            t == s@,
            out@ == t.subrange(start as int, i as int),
        decreases end - i,
    {
        out.push(s.get_char(i));
        proof {
            assert(t.subrange(start as int, i + 1) =~= t.subrange(start as int, i as int).push(t[i as int]));
        }
        i = i + 1;
    }
    assert(out@ =~= spec_trimmed(t));
    out
}

/// The characters of `s` without leading and trailing whitespace, in ASCII
/// upper case.
pub fn trimmed_ascii_upper(s: &str) -> (r: Vec<char>)
    ensures
        r@ == spec_upper_trimmed(s@),
{
    let trimmed = trimmed_chars(s);
    let mut out: Vec<char> = Vec::new();
    let mut i: usize = 0;
    while i < trimmed.len()
        invariant
            i <= trimmed@.len(),
            trimmed@ == spec_trimmed(s@),
            out@ == trimmed@.take(i as int).map_values(|c: char| spec_ascii_upper(c)),
        decreases trimmed@.len() - i,
    {
        out.push(ascii_upper(trimmed[i]));
        proof {
            assert(trimmed@.take(i + 1).map_values(|c: char| spec_ascii_upper(c)) =~= trimmed@.take(
                i as int,
            ).map_values(|c: char| spec_ascii_upper(c)).push(spec_ascii_upper(trimmed@[i as int])));
        }
        i = i + 1;
    }
    assert(trimmed@.take(trimmed@.len() as int) =~= trimmed@);
    out
}

/// Whether two character sequences are equal.
pub fn chars_equal(a: &[char], b: &[char]) -> (r: bool)
    ensures
        r == (a@ == b@),
{
    if a.len() != b.len() {
        return false;
    }
    let mut i: usize = 0;
    while i < a.len()
        invariant
            i <= a@.len(),
            a@.len() == b@.len(),
            forall|k: int| 0 <= k < i ==> a@[k] == b@[k],
        decreases a@.len() - i,
    {
        if a[i] != b[i] {
            return false;
        }
        i = i + 1;
    }
    assert(a@ =~= b@);
    true
}

/// A string without whitespace is its own trimmed form.
pub proof fn lemma_trim_without_whitespace(s: Seq<char>)
    requires
        forall|i: int| 0 <= i < s.len() ==> !unicode_white_space(#[trigger] s[i]),
    ensures
        spec_trimmed(s) == s,
{
    if s.len() > 0 {
        assert(first_non_white(s, 0) == 0);
        assert(last_non_white_end(s, s.len() as int) == s.len());
        assert(s.subrange(0, s.len() as int) =~= s);
    } else {
        assert(spec_trimmed(s) =~= s);
    }
}

} // verus!
