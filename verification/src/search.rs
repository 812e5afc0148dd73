//! Search input: the full-text match expression built from a user's query,
//! the tag filters read from query parameters, and the text-search string of
//! the document store.

use vstd::prelude::*;

use crate::models::auth_context::strings_view;
use crate::text::{
    chars_of, contains_char, extend_chars, join_chars, join_with, lemma_join_push,
    runs, runs_of, scan_runs, split_chars, split_on, split_once, split_once_at, string_from_chars, words, words_of,
};

verus! {

// ---------------------------------------------------------------------------
// Full-text match expressions
// ---------------------------------------------------------------------------

/// What `char::is_alphanumeric` answers for `c`: whether `c` has the Unicode
/// `Alphabetic` property or is `Numeric`.
pub uninterp spec fn is_alphanumeric_char(c: char) -> bool;

/// An ASCII letter or digit.
pub open spec fn is_ascii_alnum(c: char) -> bool {
    ('a' <= c && c <= 'z') || ('A' <= c && c <= 'Z') || ('0' <= c && c <= '9')
}

/// std `char::is_alphanumeric`. Its result is named `is_alphanumeric_char`;
/// among ASCII characters the Unicode tables give the property to the
/// letters and digits only.
#[verifier::external_body]
fn char_is_alphanumeric(c: char) -> (b: bool)
    ensures
        b == is_alphanumeric_char(c),
        (c as u32) < 128 ==> (b <==> is_ascii_alnum(c)),
{
    c.is_alphanumeric()
}

/// The alphanumeric flags of the characters of `s`.
pub open spec fn alnum_flags(s: Seq<char>) -> Seq<bool> {
    s.map_values(|c: char| is_alphanumeric_char(c))
}

/// `t` between double quotes: an FTS5 phrase.
pub open spec fn quoted(t: Seq<char>) -> Seq<char> {
    seq!['"'] + t + seq!['"']
}

/// The match expression for `raw` when `alnum` flags its alphanumeric
/// characters: each maximal run of alphanumeric characters becomes a quoted
/// phrase, the phrases separated by single spaces.
pub open spec fn fts_query_text(raw: Seq<char>, alnum: Seq<bool>) -> Seq<char> {
    join_with(runs(raw, alnum).map_values(|t: Seq<char>| quoted(t)), seq![' '])
}

/// The match expression of `raw`, given the alphanumeric flag of each of its
/// characters.
pub fn fts_query_from_flags(raw: &str, alnum: &Vec<bool>) -> (q: String)
    requires
        alnum@.len() == raw@.len(),
    ensures
        q@ == fts_query_text(raw@, alnum@),
{
    let v = chars_of(raw);
    let tokens = runs_of(&v, alnum);
    let ghost token_views = tokens@.map_values(|p: Vec<char>| p@);
    let mut phrases: Vec<Vec<char>> = Vec::new();
    let n = tokens.len();
    for i in 0..n
        invariant
            n == tokens@.len(),
            token_views == tokens@.map_values(|p: Vec<char>| p@),
            phrases@.map_values(|p: Vec<char>| p@) == token_views.take(i as int).map_values(
                |t: Seq<char>| quoted(t),
            ),
    {
        let ghost before = phrases@;
        let mut phrase: Vec<char> = vec!['"'];
        extend_chars(&mut phrase, tokens[i].as_slice());
        phrase.push('"');
        assert(phrase@ =~= quoted(token_views[i as int]));
        phrases.push(phrase);
        assert(phrases@.map_values(|p: Vec<char>| p@) =~= before.map_values(|p: Vec<char>| p@).push(
            quoted(token_views[i as int]),
        ));
        assert(token_views.take(i + 1).map_values(|t: Seq<char>| quoted(t)) =~= token_views.take(
            i as int,
        ).map_values(|t: Seq<char>| quoted(t)).push(quoted(token_views[i as int])));
    }
    assert(token_views.take(n as int) =~= token_views);
    let sep = vec![' '];
    assert(sep@ =~= seq![' ']);
    let out = join_chars(&phrases, sep.as_slice());
    string_from_chars(out.as_slice())
}

/// Reduces a raw user search string to a safe FTS5 MATCH expression: every
/// maximal run of alphanumeric characters becomes a double-quoted phrase
/// (adjacent phrases mean AND), so no FTS5 operator, column filter or prefix
/// syntax of the input survives. Input without any alphanumeric character
/// gives the empty string. Every character of the result is safe (see
/// `fts_safe_char`). Among ASCII characters exactly the letters and digits
/// count as alphanumeric.
pub fn build_fts_match_query(raw: &str) -> (q: String)
    ensures
        q@ == fts_query_text(raw@, alnum_flags(raw@)),
        forall|j: int| 0 <= j < q@.len() ==> fts_safe_char(#[trigger] q@[j]),
        q@.len() == 0 <==> forall|i: int| 0 <= i < raw@.len() ==> !is_alphanumeric_char(#[trigger] raw@[i]),
        forall|i: int|
            0 <= i < raw@.len() && (#[trigger] raw@[i] as u32) < 128 ==> (is_alphanumeric_char(raw@[i])
                <==> is_ascii_alnum(raw@[i])),
{
    let v = chars_of(raw);
    let mut flags: Vec<bool> = Vec::new();
    let n = v.len();
    for i in 0..n
        invariant
            n == v@.len(),
            v@ == raw@,
            flags@ == alnum_flags(raw@).take(i as int),
            forall|k: int|
                0 <= k < i ==> ((#[trigger] raw@[k] as u32) < 128 ==> (is_alphanumeric_char(raw@[k]) <==> is_ascii_alnum(
                    raw@[k],
                ))),
    {
        let b = char_is_alphanumeric(v[i]);
        flags.push(b);
        assert(flags@ =~= alnum_flags(raw@).take(i + 1));
    }
    assert(flags@ =~= alnum_flags(raw@));
    let q = fts_query_from_flags(raw, &flags);
    proof {
        law_fts_query_is_phrases_only(raw@);
        assert forall|j: int| 0 <= j < q@.len() implies fts_safe_char(#[trigger] q@[j]) by {
            assert(fts_char(raw@, q@[j]));
            if q@[j] != '"' && q@[j] != ' ' {
                let i = choose|i: int| 0 <= i < raw@.len() && is_alphanumeric_char(#[trigger] raw@[i]) && raw@[i] == q@[j];
                assert((raw@[i] as u32) < 128 ==> is_ascii_alnum(raw@[i]));
            }
        }
    }
    q
}

/// A character of the match expression of `raw`: a quote, the separating
/// space, or an alphanumeric character of `raw`.
pub open spec fn fts_char(raw: Seq<char>, c: char) -> bool {
    c == '"' || c == ' ' || exists|i: int| 0 <= i < raw.len() && is_alphanumeric_char(#[trigger] raw[i]) && raw[i] == c
}

/// A character that is safe in a match expression: a quote, the space, an
/// ASCII letter or digit, or a non-ASCII alphanumeric character. No other
/// ASCII character is safe, so no FTS5 operator (`:`, `*`, `(`, `)`, `-`,
/// `+`, `^`, ...) is.
pub open spec fn fts_safe_char(c: char) -> bool {
    c == '"' || c == ' ' || is_ascii_alnum(c) || ((c as u32) >= 128 && is_alphanumeric_char(c))
}

proof fn lemma_scan_runs_kept(s: Seq<char>, keep: Seq<bool>)
    requires
        keep.len() == s.len(),
    ensures
        forall|k: int, j: int|
            0 <= k < scan_runs(s, keep).0.len() && 0 <= j < scan_runs(s, keep).0[k].len()
                ==> exists|i: int| 0 <= i < s.len() && keep[i] && s[i] == #[trigger] scan_runs(s, keep).0[k][j],
        forall|j: int|
            0 <= j < scan_runs(s, keep).1.len() ==> exists|i: int|
                0 <= i < s.len() && keep[i] && s[i] == #[trigger] scan_runs(s, keep).1[j],
        (scan_runs(s, keep).0.len() == 0 && scan_runs(s, keep).1.len() == 0) <==> forall|i: int|
            0 <= i < s.len() ==> !keep[i],
    decreases s.len(),
{
    if s.len() > 0 {
        let s0 = s.drop_last();
        let k0 = keep.drop_last();
        lemma_scan_runs_kept(s0, k0);
        let (done, cur) = scan_runs(s0, k0);
        let n = s.len() - 1;
        assert forall|k: int, j: int|
            0 <= k < scan_runs(s, keep).0.len() && 0 <= j < scan_runs(s, keep).0[k].len() implies exists|
                i: int,
            | 0 <= i < s.len() && keep[i] && s[i] == #[trigger] scan_runs(s, keep).0[k][j] by {
            if k < done.len() {
                let i = choose|i: int| 0 <= i < s0.len() && k0[i] && s0[i] == done[k][j];
                assert(0 <= i < s.len() && keep[i] && s[i] == scan_runs(s, keep).0[k][j]);
            } else {
                let i = choose|i: int| 0 <= i < s0.len() && k0[i] && s0[i] == cur[j];
                assert(0 <= i < s.len() && keep[i] && s[i] == scan_runs(s, keep).0[k][j]);
            }
        }
        assert forall|j: int| 0 <= j < scan_runs(s, keep).1.len() implies exists|i: int|
            0 <= i < s.len() && keep[i] && s[i] == #[trigger] scan_runs(s, keep).1[j] by {
            if j < cur.len() {
                let i = choose|i: int| 0 <= i < s0.len() && k0[i] && s0[i] == cur[j];
                assert(0 <= i < s.len() && keep[i] && s[i] == scan_runs(s, keep).1[j]);
            } else {
                assert(0 <= n < s.len() && keep[n] && s[n] == scan_runs(s, keep).1[j]);
            }
        }
        if forall|i: int| 0 <= i < s.len() ==> !keep[i] {
            assert forall|i: int| 0 <= i < s0.len() implies !k0[i] by {
                assert(!keep[i]);
            }
        }
        if scan_runs(s, keep).0.len() == 0 && scan_runs(s, keep).1.len() == 0 {
            assert forall|i: int| 0 <= i < s.len() implies !keep[i] by {
                if i < n {
                    assert(!k0[i]);
                }
            }
        }
    }
}

proof fn lemma_runs_kept(s: Seq<char>, keep: Seq<bool>)
    requires
        keep.len() == s.len(),
    ensures
        forall|k: int, j: int|
            0 <= k < runs(s, keep).len() && 0 <= j < runs(s, keep)[k].len() ==> exists|i: int|
                0 <= i < s.len() && keep[i] && s[i] == #[trigger] runs(s, keep)[k][j],
        forall|k: int| 0 <= k < runs(s, keep).len() ==> #[trigger] runs(s, keep)[k].len() > 0,
        runs(s, keep).len() == 0 <==> forall|i: int| 0 <= i < s.len() ==> !keep[i],
{
    lemma_scan_runs_kept(s, keep);
    lemma_scan_runs_nonempty(s, keep);
    let (done, cur) = scan_runs(s, keep);
    assert forall|k: int, j: int| 0 <= k < runs(s, keep).len() && 0 <= j < runs(s, keep)[k].len() implies exists|
        i: int,
    | 0 <= i < s.len() && keep[i] && s[i] == #[trigger] runs(s, keep)[k][j] by {
        if k < done.len() {
            assert(runs(s, keep)[k][j] == done[k][j]);
        } else {
            assert(runs(s, keep)[k][j] == cur[j]);
        }
    }
}

proof fn lemma_scan_runs_nonempty(s: Seq<char>, keep: Seq<bool>)
    requires
        keep.len() == s.len(),
    ensures
        forall|k: int| 0 <= k < scan_runs(s, keep).0.len() ==> #[trigger] scan_runs(s, keep).0[k].len() > 0,
    decreases s.len(),
{
    if s.len() > 0 {
        lemma_scan_runs_nonempty(s.drop_last(), keep.drop_last());
        let pr = scan_runs(s.drop_last(), keep.drop_last());
        assert forall|k: int| 0 <= k < scan_runs(s, keep).0.len() implies #[trigger] scan_runs(s, keep).0[k].len() > 0 by {
            if k < pr.0.len() {
                assert(scan_runs(s, keep).0[k] == pr.0[k]);
            }
        }
    }
}

proof fn lemma_join_chars_ok(raw: Seq<char>, parts: Seq<Seq<char>>)
    requires
        forall|k: int, j: int| 0 <= k < parts.len() && 0 <= j < parts[k].len() ==> fts_char(raw, #[trigger] parts[k][j]),
    ensures
        forall|j: int| 0 <= j < join_with(parts, seq![' ']).len() ==> fts_char(raw, #[trigger] join_with(parts, seq![' '])[j]),
        parts.len() > 0 ==> join_with(parts, seq![' ']).len() >= parts[0].len(),
    decreases parts.len(),
{
    if parts.len() > 0 {
        let prev = parts.drop_last();
        lemma_join_chars_ok(raw, prev);
        lemma_join_push(prev, seq![' '], parts.last());
        assert(prev.push(parts.last()) =~= parts);
        let jp = join_with(prev, seq![' ']);
        assert forall|j: int| 0 <= j < join_with(parts, seq![' ']).len() implies fts_char(
            raw,
            #[trigger] join_with(parts, seq![' '])[j],
        ) by {
            if prev.len() == 0 {
                assert(fts_char(raw, parts[0][j]));
            } else if j < jp.len() {
                assert(join_with(parts, seq![' '])[j] == jp[j]);
            } else if j == jp.len() {
            } else {
                assert(join_with(parts, seq![' '])[j] == parts.last()[j - jp.len() - 1]);
                assert(fts_char(raw, parts[parts.len() - 1][j - jp.len() - 1]));
            }
        }
    }
}

/// Every character of the match expression is a quote, a space or an
/// alphanumeric character of the input; the expression is empty exactly
/// when the input holds no alphanumeric character. (With the ASCII
/// characters classified as `build_fts_match_query` states, no FTS5
/// operator, column filter or prefix marker can reach the MATCH clause.)
pub proof fn law_fts_query_is_phrases_only(raw: Seq<char>)
    ensures
        forall|j: int|
            0 <= j < fts_query_text(raw, alnum_flags(raw)).len() ==> fts_char(
                raw,
                #[trigger] fts_query_text(raw, alnum_flags(raw))[j],
            ),
        fts_query_text(raw, alnum_flags(raw)).len() == 0 <==> forall|i: int|
            0 <= i < raw.len() ==> !is_alphanumeric_char(#[trigger] raw[i]),
{
    let flags = alnum_flags(raw);
    lemma_runs_kept(raw, flags);
    let toks = runs(raw, flags);
    let parts = toks.map_values(|t: Seq<char>| quoted(t));
    assert forall|k: int, j: int| 0 <= k < parts.len() && 0 <= j < parts[k].len() implies fts_char(
        raw,
        #[trigger] parts[k][j],
    ) by {
        if j > 0 && j < parts[k].len() - 1 {
            assert(parts[k][j] == toks[k][j - 1]);
            let i = choose|i: int| 0 <= i < raw.len() && flags[i] && raw[i] == toks[k][j - 1];
            assert(is_alphanumeric_char(raw[i]));
        }
    }
    lemma_join_chars_ok(raw, parts);
    if forall|i: int| 0 <= i < raw.len() ==> !is_alphanumeric_char(#[trigger] raw[i]) {
        assert forall|i: int| 0 <= i < raw.len() implies !flags[i] by {
            assert(!is_alphanumeric_char(raw[i]));
        }
        assert(toks.len() == 0);
    }
    if fts_query_text(raw, flags).len() == 0 {
        if toks.len() > 0 {
            assert(parts[0].len() > 0);
            assert(false);
        }
        assert forall|i: int| 0 <= i < raw.len() implies !is_alphanumeric_char(#[trigger] raw[i]) by {
            assert(!flags[i]);
        }
    }
}

// ---------------------------------------------------------------------------
// Tag filters
// ---------------------------------------------------------------------------

/// Query parameters of a search.
#[derive(Debug)]
pub struct SearchParams {
    pub limit: i64,
    pub cursor: Option<String>,
    /// The text query.
    pub q: Option<String>,
    /// Tag filters, comma separated (`type:document,status:draft`).
    pub tag: Option<String>,
    /// Tag filters given one per parameter.
    pub tags: Vec<String>,
    /// Whether whole assets are returned in place of compact results.
    pub full_content: bool,
}

/// The filter a `category:value` piece stands for: split at its first `:`;
/// a piece without `:` is no filter.
pub open spec fn tag_filter_of(piece: Seq<char>) -> Option<(Seq<char>, Seq<char>)> {
    split_once_at(piece, ':')
}

/// The filters of a sequence of pieces, in order.
pub open spec fn filters_of_pieces(pieces: Seq<Seq<char>>) -> Seq<(Seq<char>, Seq<char>)>
    decreases pieces.len(),
{
    if pieces.len() == 0 {
        Seq::empty()
    } else {
        let prev = filters_of_pieces(pieces.drop_last());
        match tag_filter_of(pieces.last()) {
            Some(f) => prev.push(f),
            None => prev,
        }
    }
}

/// The filters of tag parameters: each parameter split at its commas.
pub open spec fn filters_of_tags(tags: Seq<Seq<char>>) -> Seq<(Seq<char>, Seq<char>)>
    decreases tags.len(),
{
    if tags.len() == 0 {
        Seq::empty()
    } else {
        filters_of_tags(tags.drop_last()) + filters_of_pieces(split_on(tags.last(), ','))
    }
}

/// The tag parameters of a search: the repeated ones, then the single one.
pub open spec fn tag_params(p: &SearchParams) -> Seq<Seq<char>> {
    strings_view(p.tags@) + match p.tag {
        Some(t) => seq![t@],
        None => Seq::empty(),
    }
}

/// The view of a list of filters.
pub open spec fn pairs_view(v: Seq<(String, String)>) -> Seq<(Seq<char>, Seq<char>)> {
    v.map_values(|p: (String, String)| (p.0@, p.1@))
}

fn push_filters_of(out: &mut Vec<(String, String)>, tag: &String)
    ensures
        pairs_view(final(out)@) == pairs_view(old(out)@) + filters_of_pieces(split_on(tag@, ',')),
{
    let v = chars_of(tag.as_str());
    let pieces = split_chars(&v, ',');
    let ghost piece_views = pieces@.map_values(|p: Vec<char>| p@);
    let ghost start = pairs_view(out@);
    let n = pieces.len();
    for i in 0..n
        invariant
            n == pieces@.len(),
            piece_views == pieces@.map_values(|p: Vec<char>| p@),
            piece_views == split_on(tag@, ','),
            pairs_view(out@) == start + filters_of_pieces(piece_views.take(i as int)),
    {
        let ghost before = out@;
        assert(piece_views.take(i + 1).drop_last() =~= piece_views.take(i as int));
        match split_once(&pieces[i], ':') {
            Some(f) => {
                let ghost fv = (f.0@, f.1@);
                out.push(f);
                assert(pairs_view(out@) =~= pairs_view(before).push(fv));
            },
            None => {},
        }
    }
    assert(piece_views.take(n as int) =~= piece_views);
}

/// The `(category, value)` tag filters of a search, in parameter order: the
/// repeated `tags` parameters, then the single `tag` parameter, each split at
/// its commas; a piece splits at its first `:` and a piece without `:` is
/// dropped.
pub fn parse_tag_filters(params: &SearchParams) -> (r: Vec<(String, String)>)
    ensures
        pairs_view(r@) == filters_of_tags(tag_params(params)),
{
    let mut out: Vec<(String, String)> = Vec::new();
    let ghost all = tag_params(params);
    let n = params.tags.len();
    for i in 0..n
        invariant
            n == params.tags@.len(),
            all == tag_params(params),
            pairs_view(out@) == filters_of_tags(all.take(i as int)),
    {
        push_filters_of(&mut out, &params.tags[i]);
        assert(all.take(i + 1).drop_last() =~= all.take(i as int));
    }
    match &params.tag {
        Some(t) => {
            assert(all.take(n as int).push(t@) =~= all);
            assert(all.drop_last() =~= all.take(n as int));
            push_filters_of(&mut out, t);
        },
        None => {
            assert(all.take(n as int) =~= all);
        },
    }
    out
}

// ---------------------------------------------------------------------------
// Document-store text search
// ---------------------------------------------------------------------------

/// A word required by the text search: kept as is when it already carries a
/// `+` or `-` marker, otherwise marked with `+`.
pub open spec fn required_word(w: Seq<char>) -> Seq<char> {
    if w.len() > 0 && (w[0] == '+' || w[0] == '-') {
        w
    } else {
        seq!['+'] + w
    }
}

/// The text-search string for query `q`: an unquoted query of several words
/// (it holds a space and does not start with `"`) becomes its words each
/// marked required, joined by single spaces; any other query is used as is.
pub open spec fn text_search_query(q: Seq<char>) -> Seq<char> {
    if q.contains(' ') && !(q.len() > 0 && q[0] == '"') {
        join_with(words(q).map_values(|w: Seq<char>| required_word(w)), seq![' '])
    } else {
        q
    }
}

fn mark_required(ws: &Vec<Vec<char>>) -> (marked: Vec<Vec<char>>)
    ensures
        marked@.map_values(|p: Vec<char>| p@) == ws@.map_values(|p: Vec<char>| p@).map_values(
            |w: Seq<char>| required_word(w),
        ),
{
    let ghost word_views = ws@.map_values(|p: Vec<char>| p@);
    let mut marked: Vec<Vec<char>> = Vec::new();
    let n = ws.len();
    for i in 0..n
        invariant
            n == ws@.len(),
            word_views == ws@.map_values(|p: Vec<char>| p@),
            marked@.map_values(|p: Vec<char>| p@) == word_views.take(i as int).map_values(
                |w: Seq<char>| required_word(w),
            ),
    {
        let ghost before = marked@;
        let w = &ws[i];
        let keep = w.len() > 0 && (w[0] == '+' || w[0] == '-');
        let mut m: Vec<char> = Vec::new();
        if !keep {
            m.push('+');
        }
        extend_chars(&mut m, w.as_slice());
        assert(m@ =~= required_word(word_views[i as int]));
        marked.push(m);
        assert(marked@.map_values(|p: Vec<char>| p@) =~= before.map_values(|p: Vec<char>| p@).push(
            required_word(word_views[i as int]),
        ));
        assert(word_views.take(i + 1).map_values(|w: Seq<char>| required_word(w)) =~= word_views.take(
            i as int,
        ).map_values(|w: Seq<char>| required_word(w)).push(required_word(word_views[i as int])));
    }
    assert(word_views.take(n as int) =~= word_views);
    marked
}

/// The text-search string for `q` (every word of an unquoted multi-word
/// query is made required, so the search means AND).
pub fn text_search_string(q: &str) -> (r: String)
    ensures
        r@ == text_search_query(q@),
{
    let v = chars_of(q);
    let has_space = contains_char(&v, ' ');
    let quoted_start = v.len() > 0 && v[0] == '"';
    if !has_space || quoted_start {
        return string_from_chars(v.as_slice());
    }
    let ws = words_of(&v);
    let marked = mark_required(&ws);
    let sep = vec![' '];
    assert(sep@ =~= seq![' ']);
    let out = join_chars(&marked, sep.as_slice());
    string_from_chars(out.as_slice())
}

} // verus!
