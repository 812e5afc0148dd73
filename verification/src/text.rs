//! Character-level text helpers shared by the rest of the library.
//!
//! Strings are reasoned about through their `Seq<char>` views. The helpers
//! here turn strings into character vectors and back, measure UTF-8 byte
//! lengths, and implement the handful of whitespace-aware operations the
//! rest of the crate relies on.

use vstd::prelude::*;
use vstd::std_specs::iter::IteratorSpec;
use vstd::utf8::*;

verus! {

// ---------------------------------------------------------------------------
// Specifications
// ---------------------------------------------------------------------------

/// Unicode `White_Space` property (the set `char::is_whitespace` answers for).
pub open spec fn is_ws(c: char) -> bool {
    let u = c as u32;
    ||| 0x09 <= u <= 0x0D
    ||| u == 0x20
    ||| u == 0x85
    ||| u == 0xA0
    ||| u == 0x1680
    ||| 0x2000 <= u <= 0x200A
    ||| u == 0x2028
    ||| u == 0x2029
    ||| u == 0x202F
    ||| u == 0x205F
    ||| u == 0x3000
}

/// Every character of `s` is whitespace (so `s.trim()` is empty).
pub open spec fn all_ws(s: Seq<char>) -> bool {
    forall|i: int| 0 <= i < s.len() ==> is_ws(#[trigger] s[i])
}

/// Number of bytes in the UTF-8 encoding of one character.
pub open spec fn utf8_width(c: char) -> nat {
    let u = c as u32;
    if u < 0x80 {
        1
    } else if u < 0x800 {
        2
    } else if u < 0x10000 {
        3
    } else {
        4
    }
}

/// Number of bytes in the UTF-8 encoding of a character sequence
/// (what `str::len` returns).
pub open spec fn utf8_len(s: Seq<char>) -> nat
    decreases s.len(),
{
    if s.len() == 0 {
        0
    } else {
        utf8_len(s.drop_last()) + utf8_width(s.last())
    }
}

/// `parts` joined with `sep` between consecutive parts.
pub open spec fn join_with(parts: Seq<Seq<char>>, sep: Seq<char>) -> Seq<char>
    decreases parts.len(),
{
    if parts.len() == 0 {
        Seq::empty()
    } else if parts.len() == 1 {
        parts[0]
    } else {
        join_with(parts.drop_last(), sep) + sep + parts.last()
    }
}

/// `s` without its leading characters equal to `c`.
pub open spec fn drop_leading(s: Seq<char>, c: char) -> Seq<char>
    decreases s.len(),
{
    if s.len() > 0 && s[0] == c {
        drop_leading(s.drop_first(), c)
    } else {
        s
    }
}

/// `s` without its leading whitespace (`str::trim_start`).
pub open spec fn trim_start_ws(s: Seq<char>) -> Seq<char>
    decreases s.len(),
{
    if s.len() > 0 && is_ws(s[0]) {
        trim_start_ws(s.drop_first())
    } else {
        s
    }
}

/// The pieces of `s` between occurrences of `sep` (`str::split` with a
/// character pattern): always one more piece than there are separators.
pub open spec fn split_on(s: Seq<char>, sep: char) -> Seq<Seq<char>>
    decreases s.len(),
{
    if s.len() == 0 {
        seq![Seq::empty()]
    } else {
        let prev = split_on(s.drop_last(), sep);
        if s.last() == sep {
            prev.push(Seq::empty())
        } else {
            prev.update(prev.len() - 1, prev.last().push(s.last()))
        }
    }
}

/// Position of the first occurrence of `c` in `s`, if any.
pub open spec fn first_index_of(s: Seq<char>, c: char) -> Option<int> {
    if exists|i: int| 0 <= i < s.len() && s[i] == c {
        Some(choose|i: int| 0 <= i < s.len() && s[i] == c && forall|j: int| 0 <= j < i ==> s[j] != c)
    } else {
        None
    }
}

/// `s` starts with `p`.
pub open spec fn has_prefix(s: Seq<char>, p: Seq<char>) -> bool {
    p.len() <= s.len() && s.subrange(0, p.len() as int) == p
}

/// Lower-case ASCII letters of `c` (other characters unchanged).
pub open spec fn ascii_lower(c: char) -> char {
    if 'A' <= c <= 'Z' {
        ((c as u32) + 32) as char
    } else {
        c
    }
}

/// `a` and `b` are equal ignoring ASCII case (`str::eq_ignore_ascii_case`).
pub open spec fn eq_ignore_ascii_case(a: Seq<char>, b: Seq<char>) -> bool {
    a.len() == b.len() && forall|i: int| 0 <= i < a.len() ==> ascii_lower(#[trigger] a[i]) == ascii_lower(b[i])
}

// ---------------------------------------------------------------------------
// Lemmas
// ---------------------------------------------------------------------------

/// Lengths add up over concatenation.
pub proof fn lemma_utf8_len_concat(a: Seq<char>, b: Seq<char>)
    ensures
        utf8_len(a + b) == utf8_len(a) + utf8_len(b),
    decreases b.len(),
{
    if b.len() == 0 {
        assert(a + b =~= a);
    } else {
        lemma_utf8_len_concat(a, b.drop_last());
        assert((a + b).drop_last() =~= a + b.drop_last());
    }
}

/// A join grows by separator and part.
pub proof fn lemma_join_push(parts: Seq<Seq<char>>, sep: Seq<char>, p: Seq<char>)
    ensures
        join_with(parts.push(p), sep) == if parts.len() == 0 {
            p
        } else {
            join_with(parts, sep) + sep + p
        },
{
    assert(parts.push(p).drop_last() =~= parts);
}

// ---------------------------------------------------------------------------
// Executable helpers
// ---------------------------------------------------------------------------

/// Appends one character to a string (std `String::push`).
#[verifier::external_body]
pub(crate) fn push_char(s: &mut String, c: char)
    ensures
        final(s)@ == old(s)@.push(c),
{
    s.push(c);
}

/// The characters of a string, in order.
pub fn chars_of(s: &str) -> (out: Vec<char>)
    ensures
        out@ == s@,
{
    let mut out: Vec<char> = Vec::new();
    for c in it: s.chars()
        invariant
            out@ == it.seq().take(it.index() as int),
    {
        out.push(c);
    }
    out
}

/// A string holding exactly the given characters.
pub fn string_from_chars(v: &[char]) -> (s: String)
    ensures
        s@ == v@,
{
    let mut s = String::new();
    let n = v.len();
    for i in 0..n
        invariant
            n == v@.len(),
            s@ == v@.take(i as int),
    {
        push_char(&mut s, v[i]);
        assert(v@.take(i + 1) =~= v@.take(i as int).push(v@[i as int]));
    }
    assert(v@.take(n as int) =~= v@);
    s
}

/// Appends all characters of `src` to `dst`.
pub fn extend_chars(dst: &mut Vec<char>, src: &[char])
    ensures
        final(dst)@ == old(dst)@ + src@,
{
    let n = src.len();
    for i in 0..n
        invariant
            n == src@.len(),
            dst@ == old(dst)@ + src@.take(i as int),
    {
        dst.push(src[i]);
        assert(src@.take(i + 1) =~= src@.take(i as int).push(src@[i as int]));
    }
    assert(src@.take(n as int) =~= src@);
}

/// Concatenation of two strings.
pub fn concat_str(a: &str, b: &str) -> (s: String)
    ensures
        s@ == a@ + b@,
{
    let mut v = chars_of(a);
    let w = chars_of(b);
    extend_chars(&mut v, w.as_slice());
    string_from_chars(v.as_slice())
}

/// Whether `c` has the Unicode `White_Space` property.
pub fn is_whitespace(c: char) -> (b: bool)
    ensures
        b == is_ws(c),
{
    let u = c as u32;
    (0x09 <= u && u <= 0x0D) || u == 0x20 || u == 0x85 || u == 0xA0 || u == 0x1680 || (0x2000
        <= u && u <= 0x200A) || u == 0x2028 || u == 0x2029 || u == 0x202F || u == 0x205F || u
        == 0x3000
}

/// Whether `s` is empty after trimming whitespace.
pub fn is_blank(s: &str) -> (b: bool)
    ensures
        b == all_ws(s@),
{
    let v = chars_of(s);
    let n = v.len();
    for i in 0..n
        invariant
            n == v@.len(),
            v@ == s@,
            forall|j: int| 0 <= j < i ==> is_ws(#[trigger] v@[j]),
    {
        if !is_whitespace(v[i]) {
            return false;
        }
    }
    true
}

/// UTF-8 byte length of one character (`char::len_utf8`).
pub fn char_utf8_width(c: char) -> (w: usize)
    ensures
        w == utf8_width(c),
{
    let u = c as u32;
    if u < 0x80 {
        1
    } else if u < 0x800 {
        2
    } else if u < 0x10000 {
        3
    } else {
        4
    }
}

/// Whether the UTF-8 byte length of `s` exceeds `bound` (`s.len() > bound`).
pub fn utf8_len_exceeds(s: &[char], bound: usize) -> (b: bool)
    ensures
        b == (utf8_len(s@) > bound),
{
    let n = s.len();
    let mut total: u128 = 0;
    for i in 0..n
        invariant
            n == s@.len(),
            total == utf8_len(s@.take(i as int)),
            total <= 4 * i,
    {
        proof {
            assert(s@.take(i + 1).drop_last() =~= s@.take(i as int));
        }
        total = total + char_utf8_width(s[i]) as u128;
    }
    assert(s@.take(n as int) =~= s@);
    total > bound as u128
}

/// Equality of two strings by content.
pub fn str_eq(a: &str, b: &str) -> (r: bool)
    ensures
        r == (a@ == b@),
{
    let x = chars_of(a);
    let y = chars_of(b);
    if x.len() != y.len() {
        return false;
    }
    let n = x.len();
    for i in 0..n
        invariant
            n == x@.len(),
            n == y@.len(),
            x@ == a@,
            y@ == b@,
            forall|j: int| 0 <= j < i ==> x@[j] == y@[j],
    {
        if x[i] != y[i] {
            return false;
        }
    }
    assert(x@ =~= y@);
    true
}

/// Joins character sequences with a separator.
pub fn join_chars(parts: &Vec<Vec<char>>, sep: &[char]) -> (out: Vec<char>)
    ensures
        out@ == join_with(parts@.map_values(|p: Vec<char>| p@), sep@),
{
    let ghost views = parts@.map_values(|p: Vec<char>| p@);
    let mut out: Vec<char> = Vec::new();
    let n = parts.len();
    for i in 0..n
        invariant
            n == parts@.len(),
            views == parts@.map_values(|p: Vec<char>| p@),
            out@ == join_with(views.take(i as int), sep@),
    {
        proof {
            lemma_join_push(views.take(i as int), sep@, views[i as int]);
            assert(views.take(i + 1) =~= views.take(i as int).push(views[i as int]));
        }
        if i > 0 {
            extend_chars(&mut out, sep);
        }
        extend_chars(&mut out, parts[i].as_slice());
    }
    assert(views.take(n as int) =~= views);
    out
}

} // verus!

verus! {

/// An owned copy of a string slice.
pub fn owned(s: &str) -> (r: String)
    ensures
        r@ == s@,
{
    s.to_owned()
}

/// `s` with every `from` character replaced by `to`.
pub open spec fn replace_char(s: Seq<char>, from: char, to: char) -> Seq<char> {
    s.map_values(|c: char| if c == from { to } else { c })
}

/// Replaces every `from` character by `to` (`str::replace` with one-character
/// patterns).
pub fn replace_char_str(s: &str, from: char, to: char) -> (r: String)
    ensures
        r@ == replace_char(s@, from, to),
{
    let v = chars_of(s);
    let mut out: Vec<char> = Vec::new();
    let n = v.len();
    for i in 0..n
        invariant
            n == v@.len(),
            v@ == s@,
            out@ == replace_char(s@.take(i as int), from, to),
    {
        if v[i] == from {
            out.push(to);
        } else {
            out.push(v[i]);
        }
        assert(replace_char(s@.take(i + 1), from, to) =~= replace_char(s@.take(i as int), from, to).push(
            if v@[i as int] == from { to } else { v@[i as int] },
        ));
    }
    assert(s@.take(n as int) =~= s@);
    string_from_chars(out.as_slice())
}

/// Whether `s` starts with `p`; when it does, the rest of `s` after `p`.
pub fn strip_prefix(s: &str, p: &str) -> (r: Option<String>)
    ensures
        r is Some <==> has_prefix(s@, p@),
        r matches Some(rest) ==> rest@ == s@.subrange(p@.len() as int, s@.len() as int),
{
    let v = chars_of(s);
    let w = chars_of(p);
    if w.len() > v.len() {
        return None;
    }
    let m = w.len();
    for i in 0..m
        invariant
            m == w@.len(),
            m <= v@.len(),
            v@ == s@,
            w@ == p@,
            forall|j: int| 0 <= j < i ==> v@[j] == w@[j],
    {
        if v[i] != w[i] {
            assert(s@.subrange(0, p@.len() as int)[i as int] != p@[i as int]);
            return None;
        }
    }
    assert(s@.subrange(0, p@.len() as int) =~= p@);
    let mut rest: Vec<char> = Vec::new();
    let n = v.len();
    for i in m..n
        invariant
            m <= n,
            n == v@.len(),
            v@ == s@,
            rest@ == s@.subrange(m as int, i as int),
    {
        rest.push(v[i]);
        assert(rest@ =~= s@.subrange(m as int, i + 1));
    }
    Some(string_from_chars(rest.as_slice()))
}

} // verus!

verus! {

// ---------------------------------------------------------------------------
// Runs, lines and words
// ---------------------------------------------------------------------------

/// Scanning `s` left to right: the completed maximal runs of kept
/// characters, and the run in progress.
pub open spec fn scan_runs(s: Seq<char>, keep: Seq<bool>) -> (Seq<Seq<char>>, Seq<char>)
    decreases s.len(),
{
    if s.len() == 0 {
        (Seq::empty(), Seq::empty())
    } else {
        let (done, cur) = scan_runs(s.drop_last(), keep.drop_last());
        if keep[s.len() - 1] {
            (done, cur.push(s.last()))
        } else if cur.len() > 0 {
            (done.push(cur), Seq::empty())
        } else {
            (done, Seq::empty())
        }
    }
}

/// The maximal nonempty runs of characters of `s` whose `keep` flag is set,
/// in order (`str::split` on the unkept characters, empty pieces dropped).
pub open spec fn runs(s: Seq<char>, keep: Seq<bool>) -> Seq<Seq<char>> {
    let (done, cur) = scan_runs(s, keep);
    if cur.len() > 0 {
        done.push(cur)
    } else {
        done
    }
}

/// Whitespace-free flags of `s`.
pub open spec fn non_ws_flags(s: Seq<char>) -> Seq<bool> {
    s.map_values(|c: char| !is_ws(c))
}

/// The words of `s` (`str::split_whitespace`).
pub open spec fn words(s: Seq<char>) -> Seq<Seq<char>> {
    runs(s, non_ws_flags(s))
}

/// `s` with every whitespace run collapsed to one space and no leading or
/// trailing whitespace (`split_whitespace` joined with `" "`).
pub open spec fn collapse_ws(s: Seq<char>) -> Seq<char> {
    join_with(words(s), " "@)
}

proof fn lemma_take_drop_last<T>(s: Seq<T>, i: int)
    requires
        0 <= i < s.len(),
    ensures
        s.take(i + 1).drop_last() == s.take(i),
        s.take(i + 1).last() == s[i],
        s.take(i + 1).len() == i + 1,
{
    assert(s.take(i + 1).drop_last() =~= s.take(i));
}

/// Splits `s` into its maximal runs of kept characters.
pub fn runs_of(s: &Vec<char>, keep: &Vec<bool>) -> (out: Vec<Vec<char>>)
    requires
        keep@.len() == s@.len(),
    ensures
        out@.map_values(|p: Vec<char>| p@) == runs(s@, keep@),
{
    let mut done: Vec<Vec<char>> = Vec::new();
    let mut cur: Vec<char> = Vec::new();
    let n = s.len();
    for i in 0..n
        invariant
            n == s@.len(),
            keep@.len() == n,
            (done@.map_values(|p: Vec<char>| p@), cur@) == scan_runs(s@.take(i as int), keep@.take(i as int)),
    {
        proof {
            lemma_take_drop_last(s@, i as int);
            lemma_take_drop_last(keep@, i as int);
        }
        let ghost done0 = done@;
        if keep[i] {
            cur.push(s[i]);
        } else if cur.len() > 0 {
            let c = cur;
            done.push(c);
            cur = Vec::new();
            assert(done@.map_values(|p: Vec<char>| p@) =~= done0.map_values(|p: Vec<char>| p@).push(c@));
        }
    }
    assert(s@.take(n as int) =~= s@);
    assert(keep@.take(n as int) =~= keep@);
    if cur.len() > 0 {
        let ghost done0 = done@;
        let c = cur;
        done.push(c);
        assert(done@.map_values(|p: Vec<char>| p@) =~= done0.map_values(|p: Vec<char>| p@).push(c@));
    }
    done
}

/// The words of `s` (`str::split_whitespace`).
pub fn words_of(s: &Vec<char>) -> (out: Vec<Vec<char>>)
    ensures
        out@.map_values(|p: Vec<char>| p@) == words(s@),
{
    let mut keep: Vec<bool> = Vec::new();
    let n = s.len();
    for i in 0..n
        invariant
            n == s@.len(),
            keep@ == non_ws_flags(s@).take(i as int),
    {
        keep.push(!is_whitespace(s[i]));
        assert(keep@ =~= non_ws_flags(s@).take(i + 1));
    }
    assert(keep@ =~= non_ws_flags(s@));
    runs_of(s, &keep)
}

/// The words of `s`, joined by single spaces.
pub fn collapse_whitespace(s: &Vec<char>) -> (out: Vec<char>)
    ensures
        out@ == collapse_ws(s@),
{
    let parts = words_of(s);
    let sep = vec![' '];
    assert(sep@ =~= " "@) by {
        reveal_strlit(" ");
    }
    join_chars(&parts, sep.as_slice())
}

/// The lines of `s`: the pieces between `\n` characters.
pub fn split_chars(s: &Vec<char>, sep: char) -> (out: Vec<Vec<char>>)
    ensures
        out@.map_values(|p: Vec<char>| p@) == split_on(s@, sep),
{
    let mut done: Vec<Vec<char>> = Vec::new();
    let mut cur: Vec<char> = Vec::new();
    let n = s.len();
    for i in 0..n
        invariant
            n == s@.len(),
            done@.map_values(|p: Vec<char>| p@).push(cur@) == split_on(s@.take(i as int), sep),
    {
        proof {
            lemma_take_drop_last(s@, i as int);
        }
        let ghost done0 = done@;
        let ghost cur0 = cur@;
        if s[i] == sep {
            let c = cur;
            done.push(c);
            cur = Vec::new();
            assert(done@.map_values(|p: Vec<char>| p@) =~= done0.map_values(|p: Vec<char>| p@).push(c@));
            assert(done@.map_values(|p: Vec<char>| p@).push(cur@) =~= done0.map_values(|p: Vec<char>| p@).push(cur0).push(Seq::empty()));
        } else {
            cur.push(s[i]);
            let ghost prev = done0.map_values(|p: Vec<char>| p@).push(cur0);
            assert(done@.map_values(|p: Vec<char>| p@).push(cur@) =~= prev.update(prev.len() - 1, prev.last().push(s@[i as int])));
        }
    }
    assert(s@.take(n as int) =~= s@);
    let ghost done0 = done@;
    done.push(cur);
    assert(done@.map_values(|p: Vec<char>| p@) =~= done0.map_values(|p: Vec<char>| p@).push(cur@));
    done
}

/// `s` without its leading `c` characters and then its leading whitespace.
pub fn strip_leading(s: &Vec<char>, c: char) -> (out: Vec<char>)
    ensures
        out@ == trim_start_ws(drop_leading(s@, c)),
{
    let n = s.len();
    let mut i: usize = 0;
    assert(s@.skip(0) =~= s@);
    while i < n && s[i] == c
        invariant
            n == s@.len(),
            i <= n,
            drop_leading(s@, c) == drop_leading(s@.skip(i as int), c),
        decreases n - i,
    {
        assert(s@.skip(i as int).drop_first() =~= s@.skip(i + 1));
        i = i + 1;
    }
    assert(drop_leading(s@.skip(i as int), c) == s@.skip(i as int)) by {
        if i < n {
            assert(s@.skip(i as int)[0] == s@[i as int]);
        }
    }
    let mut j: usize = i;
    while j < n && is_whitespace(s[j])
        invariant
            n == s@.len(),
            i <= j <= n,
            trim_start_ws(drop_leading(s@, c)) == trim_start_ws(s@.skip(j as int)),
        decreases n - j,
    {
        assert(s@.skip(j as int).drop_first() =~= s@.skip(j + 1));
        j = j + 1;
    }
    assert(trim_start_ws(s@.skip(j as int)) == s@.skip(j as int)) by {
        if j < n {
            assert(s@.skip(j as int)[0] == s@[j as int]);
        }
    }
    let mut out: Vec<char> = Vec::new();
    for k in j..n
        invariant
            n == s@.len(),
            j <= n,
            out@ == s@.subrange(j as int, k as int),
    {
        out.push(s[k]);
        assert(out@ =~= s@.subrange(j as int, k + 1));
    }
    assert(out@ =~= s@.skip(j as int));
    out
}

/// Position of the first `c` in `s`.
pub fn find_first(s: &Vec<char>, c: char) -> (r: Option<usize>)
    ensures
        match r {
            Some(i) => first_index_of(s@, c) == Some(i as int) && i < s@.len() && s@[i as int] == c,
            None => first_index_of(s@, c) is None && !s@.contains(c),
        },
{
    let n = s.len();
    for i in 0..n
        invariant
            n == s@.len(),
            forall|j: int| 0 <= j < i ==> s@[j] != c,
    {
        if s[i] == c {
            proof {
                let w = choose|k: int| 0 <= k < s@.len() && s@[k] == c && forall|j: int| 0 <= j < k ==> s@[j] != c;
                assert(0 <= i < s@.len() && s@[i as int] == c && forall|j: int| 0 <= j < i ==> s@[j] != c);
                assert(w == i);
            }
            return Some(i);
        }
    }
    None
}

/// The characters of `v` from position `a` up to (not including) `b`.
pub fn substring(v: &Vec<char>, a: usize, b: usize) -> (s: String)
    requires
        a <= b <= v@.len(),
    ensures
        s@ == v@.subrange(a as int, b as int),
{
    let mut out: Vec<char> = Vec::new();
    for j in a..b
        invariant
            b <= v@.len(),
            out@ == v@.subrange(a as int, j as int),
    {
        out.push(v[j]);
        assert(out@ =~= v@.subrange(a as int, j + 1));
    }
    string_from_chars(out.as_slice())
}

/// Whether `c` occurs in `v`.
pub fn contains_char(v: &Vec<char>, c: char) -> (b: bool)
    ensures
        b == v@.contains(c),
{
    match find_first(v, c) {
        Some(i) => true,
        None => false,
    }
}

/// `s` split at the first occurrence of `sep` (`str::split_once`): the part
/// before it and the part after it.
pub open spec fn split_once_at(s: Seq<char>, sep: char) -> Option<(Seq<char>, Seq<char>)> {
    match first_index_of(s, sep) {
        Some(i) => Some((s.take(i), s.skip(i + 1))),
        None => None,
    }
}

/// Splits `v` at its first `sep` (`str::split_once` with a character).
pub fn split_once(v: &Vec<char>, sep: char) -> (r: Option<(String, String)>)
    ensures
        match r {
            Some(parts) => split_once_at(v@, sep) == Some((parts.0@, parts.1@)),
            None => split_once_at(v@, sep) is None,
        },
{
    let m = v.len();
    match find_first(v, sep) {
        Some(k) => {
            let before = substring(v, 0, k);
            let after = substring(v, k + 1, m);
            assert(before@ =~= v@.take(k as int));
            assert(after@ =~= v@.skip(k + 1));
            Some((before, after))
        },
        None => None,
    }
}

} // verus!
