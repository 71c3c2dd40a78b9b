use vstd::prelude::*;

verus! {

/// Appends one character to a string.
///
/// Trusted: `String::push`, which std documents as appending the given
/// `char` to the end of the string.
#[verifier::external_body]
pub(crate) fn push_char(s: &mut String, c: char)
    ensures
        final(s)@ == old(s)@.push(c),
{
    s.push(c);
}

/// The characters of `s`, in order.
pub fn chars_of(s: &str) -> (r: Vec<char>)
    ensures
        r@ == s@,
{
    let mut r: Vec<char> = Vec::new();
    for c in it: s.chars()
        invariant
            r@ == it.seq().take(it.index() as int),
            it.seq() == s@,
    {
        r.push(c);
    }
    r
}

} // verus!

verus! {

/// ASCII lowercase of one character; every other character is unchanged.
pub open spec fn ascii_lower(c: char) -> char {
    if 'A' <= c && c <= 'Z' {
        ((c as u32) + 32) as char
    } else {
        c
    }
}

/// ASCII lowercase of a character sequence.
pub open spec fn ascii_lower_seq(s: Seq<char>) -> Seq<char> {
    s.map_values(|c: char| ascii_lower(c))
}

/// Two sequences are equal when ASCII letters are compared without case.
pub open spec fn eq_ignore_ascii_case_spec(a: Seq<char>, b: Seq<char>) -> bool {
    ascii_lower_seq(a) == ascii_lower_seq(b)
}

/// Comparing without ASCII case is an equivalence: reflexive, symmetric
/// and transitive.
pub proof fn lemma_eq_ignore_ascii_case_equivalence(a: Seq<char>, b: Seq<char>, c: Seq<char>)
    ensures
        eq_ignore_ascii_case_spec(a, a),
        eq_ignore_ascii_case_spec(a, b) == eq_ignore_ascii_case_spec(b, a),
        eq_ignore_ascii_case_spec(a, b) && eq_ignore_ascii_case_spec(b, c)
            ==> eq_ignore_ascii_case_spec(a, c),
{
}

pub fn to_ascii_lower(c: char) -> (r: char)
    ensures
        r == ascii_lower(c),
{
    if 'A' <= c && c <= 'Z' {
        ((c as u8) + 32) as char
    } else {
        c
    }
}

} // verus!

verus! {

/// Compares two strings, treating ASCII letters without case (as
/// `str::eq_ignore_ascii_case` does: non-ASCII characters must match exactly).
pub fn eq_ignore_ascii_case(a: &str, b: &str) -> (r: bool)
    ensures
        r == eq_ignore_ascii_case_spec(a@, b@),
{
    let ca = chars_of(a);
    let cb = chars_of(b);
    eq_ignore_ascii_case_chars(&ca, &cb)
}

/// `eq_ignore_ascii_case` on character vectors.
pub fn eq_ignore_ascii_case_chars(a: &Vec<char>, b: &Vec<char>) -> (r: bool)
    ensures
        r == eq_ignore_ascii_case_spec(a@, b@),
{
    if a.len() != b.len() {
        assert(ascii_lower_seq(a@).len() != ascii_lower_seq(b@).len());
        return false;
    }
    let n = a.len();
    let mut i: usize = 0;
    while i < n
        invariant
            n == a.len(),
            n == b.len(),
            i <= n,
            forall|j: int| 0 <= j < i ==> ascii_lower(a@[j]) == ascii_lower(b@[j]),
        decreases n - i,
    {
        if to_ascii_lower(a[i]) != to_ascii_lower(b[i]) {
            assert(ascii_lower_seq(a@)[i as int] != ascii_lower_seq(b@)[i as int]);
            return false;
        }
        i = i + 1;
    }
    assert(ascii_lower_seq(a@) =~= ascii_lower_seq(b@));
    true
}

/// Builds a string from a character vector.
pub fn string_from_chars(cs: &Vec<char>) -> (r: String)
    ensures
        r@ == cs@,
{
    let mut r = String::new();
    let n = cs.len();
    let mut i: usize = 0;
    while i < n
        invariant
            n == cs.len(),
            i <= n,
            r@ == cs@.take(i as int),
        decreases n - i,
    {
        push_char(&mut r, cs[i]);
        assert(cs@.take(i + 1) =~= cs@.take(i as int).push(cs@[i as int]));
        i = i + 1;
    }
    assert(cs@.take(n as int) =~= cs@);
    r
}

/// Unicode `White_Space`, the property that `char::is_whitespace` tests.
pub open spec fn is_whitespace_spec(c: char) -> bool {
    ||| ('\u{9}' <= c && c <= '\u{d}')
    ||| c == ' '
    ||| c == '\u{85}'
    ||| c == '\u{a0}'
    ||| c == '\u{1680}'
    ||| ('\u{2000}' <= c && c <= '\u{200a}')
    ||| c == '\u{2028}'
    ||| c == '\u{2029}'
    ||| c == '\u{202f}'
    ||| c == '\u{205f}'
    ||| c == '\u{3000}'
}

pub fn is_whitespace(c: char) -> (r: bool)
    ensures
        r == is_whitespace_spec(c),
{
    ('\u{9}' <= c && c <= '\u{d}') || c == ' ' || c == '\u{85}' || c == '\u{a0}' || c
        == '\u{1680}' || ('\u{2000}' <= c && c <= '\u{200a}') || c == '\u{2028}' || c
        == '\u{2029}' || c == '\u{202f}' || c == '\u{205f}' || c == '\u{3000}'
}

/// `s` without its leading whitespace.
pub open spec fn trim_start_spec(s: Seq<char>) -> Seq<char>
    decreases s.len(),
{
    if s.len() > 0 && is_whitespace_spec(s[0]) {
        trim_start_spec(s.drop_first())
    } else {
        s
    }
}

/// `s` without its trailing whitespace.
pub open spec fn trim_end_spec(s: Seq<char>) -> Seq<char>
    decreases s.len(),
{
    if s.len() > 0 && is_whitespace_spec(s.last()) {
        trim_end_spec(s.drop_last())
    } else {
        s
    }
}

/// `s` without leading and trailing whitespace (`str::trim`).
pub open spec fn trim_spec(s: Seq<char>) -> Seq<char> {
    trim_end_spec(trim_start_spec(s))
}

proof fn lemma_trim_start_skip(s: Seq<char>, i: int)
    requires
        0 <= i <= s.len(),
        forall|j: int| 0 <= j < i ==> is_whitespace_spec(s[j]),
    ensures
        trim_start_spec(s) == trim_start_spec(s.subrange(i, s.len() as int)),
    decreases i,
{
    if i > 0 {
        assert(s.drop_first() =~= s.subrange(1, s.len() as int));
        lemma_trim_start_skip(s.drop_first(), i - 1);
        assert(s.drop_first().subrange(i - 1, s.drop_first().len() as int) =~= s.subrange(
            i,
            s.len() as int,
        ));
    } else {
        assert(s.subrange(0, s.len() as int) =~= s);
    }
}

proof fn lemma_trim_end_skip(s: Seq<char>, k: int)
    requires
        0 <= k <= s.len(),
        forall|j: int| k <= j < s.len() ==> is_whitespace_spec(s[j]),
    ensures
        trim_end_spec(s) == trim_end_spec(s.subrange(0, k)),
    decreases s.len() - k,
{
    if k < s.len() {
        lemma_trim_end_skip(s.drop_last(), k);
        assert(s.drop_last().subrange(0, k) =~= s.subrange(0, k));
    } else {
        assert(s.subrange(0, k) =~= s);
    }
}

/// `str::trim` on a character vector.
pub fn trim_chars(s: &Vec<char>) -> (r: Vec<char>)
    ensures
        r@ == trim_spec(s@),
{
    let n = s.len();
    let mut start: usize = 0;
    while start < n && is_whitespace(s[start])
        invariant
            n == s.len(),
            start <= n,
            forall|j: int| 0 <= j < start ==> is_whitespace_spec(s@[j]),
        decreases n - start,
    {
        start = start + 1;
    }
    proof {
        lemma_trim_start_skip(s@, start as int);
    }
    let ghost rest = s@.subrange(start as int, n as int);
    assert(trim_start_spec(rest) == rest);
    let mut end: usize = n;
    while end > start && is_whitespace(s[end - 1])
        invariant
            n == s.len(),
            start <= end <= n,
            forall|j: int| end <= j < n ==> is_whitespace_spec(s@[j]),
        decreases end,
    {
        end = end - 1;
    }
    proof {
        let e = end - start;
        assert forall|j: int| e <= j < rest.len() implies is_whitespace_spec(rest[j]) by {
            assert(rest[j] == s@[start + j]);
        }
        lemma_trim_end_skip(rest, e);
        let kept = rest.subrange(0, e);
        assert(kept =~= s@.subrange(start as int, end as int));
        if e > 0 {
            assert(kept.last() == s@[end - 1]);
        }
        assert(trim_end_spec(kept) == kept);
    }
    let mut r: Vec<char> = Vec::new();
    let mut i = start;
    while i < end
        invariant
            n == s.len(),
            start <= i <= end <= n,
            r@ == s@.subrange(start as int, i as int),
        decreases end - i,
    {
        r.push(s[i]);
        assert(s@.subrange(start as int, i + 1) =~= s@.subrange(start as int, i as int).push(
            s@[i as int],
        ));
        i = i + 1;
    }
    r
}

} // verus!

verus! {

/// ASCII lowercase of a character vector (`str::to_ascii_lowercase`).
pub fn lower_chars(s: &Vec<char>) -> (r: Vec<char>)
    ensures
        r@ == ascii_lower_seq(s@),
{
    let mut r: Vec<char> = Vec::new();
    let n = s.len();
    let mut i: usize = 0;
    while i < n
        invariant
            n == s.len(),
            i <= n,
            r@ == ascii_lower_seq(s@.take(i as int)),
        decreases n - i,
    {
        r.push(to_ascii_lower(s[i]));
        assert(ascii_lower_seq(s@.take(i + 1)) =~= ascii_lower_seq(s@.take(i as int)).push(
            ascii_lower(s@[i as int]),
        ));
        i = i + 1;
    }
    assert(s@.take(n as int) =~= s@);
    r
}

/// Whether the characters in `cs` spell exactly `lit`.
pub fn chars_equal_str(cs: &Vec<char>, lit: &str) -> (r: bool)
    ensures
        r == (cs@ == lit@),
{
    let ls = chars_of(lit);
    if cs.len() != ls.len() {
        return false;
    }
    let n = cs.len();
    let mut i: usize = 0;
    while i < n
        invariant
            n == cs.len(),
            n == ls.len(),
            ls@ == lit@,
            i <= n,
            forall|j: int| 0 <= j < i ==> cs@[j] == ls@[j],
        decreases n - i,
    {
        if cs[i] != ls[i] {
            assert(cs@[i as int] != lit@[i as int]);
            return false;
        }
        i = i + 1;
    }
    assert(cs@ =~= ls@);
    true
}

/// A string holding the characters of `s`.
pub fn string_of(s: &str) -> (r: String)
    ensures
        r@ == s@,
{
    let cs = chars_of(s);
    string_from_chars(&cs)
}

/// Appends the characters of `s` to `dst`.
pub fn append_str(dst: &mut String, s: &str)
    ensures
        final(dst)@ == old(dst)@ + s@,
{
    let cs = chars_of(s);
    append_chars(dst, &cs);
}

/// Appends the characters of `cs` to `dst`.
pub fn append_chars(dst: &mut String, cs: &Vec<char>)
    ensures
        final(dst)@ == old(dst)@ + cs@,
{
    let ghost start = dst@;
    let n = cs.len();
    let mut i: usize = 0;
    while i < n
        invariant
            n == cs.len(),
            i <= n,
            dst@ == start + cs@.take(i as int),
        decreases n - i,
    {
        push_char(dst, cs[i]);
        assert(start + cs@.take(i + 1) =~= (start + cs@.take(i as int)).push(cs@[i as int]));
        i = i + 1;
    }
    assert(cs@.take(n as int) =~= cs@);
}

} // verus!
