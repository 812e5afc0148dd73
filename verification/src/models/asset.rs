//! Assets: the documents of the store, and their compact search form.

use vstd::prelude::*;

use crate::models::auth_context::AuthContext;
use crate::models::tag::{AddTagRequest, Tag};
use crate::models::MetadataEntry;
use crate::text::{
    char_utf8_width, chars_of, collapse_whitespace, collapse_ws, drop_leading, join_chars, join_with,
    lemma_utf8_len_concat, split_chars, split_on, string_from_chars, strip_leading, trim_start_ws, utf8_len,
    utf8_len_exceeds,
    utf8_width,
};

verus! {

/// A knowledge asset.
#[derive(Debug)]
pub struct Asset {
    pub id: String,
    pub title: String,
    pub content: Option<String>,
    /// Tags; the asset's type is the value of its `asset_type` tag.
    pub tags: Vec<Tag>,
    pub metadata: Vec<MetadataEntry>,
    /// RFC 3339 creation time.
    pub created_at: String,
    /// RFC 3339 time of the last change.
    pub updated_at: String,
    pub created_by: String,
    pub updated_by: String,
    /// RFC 3339 deletion time of a soft-deleted asset.
    pub deleted_at: Option<String>,
    /// When present, authorization policies are enforced on the asset; when
    /// absent, access is open.
    pub auth_context: Option<AuthContext>,
}

/// Request to create an asset; its type is given by an `asset_type` tag.
#[derive(Debug)]
pub struct CreateAssetRequest {
    pub title: String,
    pub content: Option<String>,
    pub tags: Vec<AddTagRequest>,
    pub metadata: Vec<MetadataEntry>,
    /// Authorization context to set at creation; when absent the asset gets
    /// visibility `public`, no owner groups and classification `internal`.
    pub auth_context: Option<AuthContext>,
}

/// Request to update an asset; absent fields stay unchanged.
#[derive(Debug)]
pub struct UpdateAssetRequest {
    pub title: Option<String>,
    pub content: Option<String>,
    pub metadata: Option<Vec<MetadataEntry>>,
}

/// A tag without its bookkeeping fields, as shown in lists and search
/// results.
#[derive(Debug)]
pub struct TagSummary {
    pub category: String,
    pub value: String,
}

/// Compact search result.
#[derive(Debug)]
pub struct SearchResult {
    pub id: String,
    pub title: String,
    /// A markup-free excerpt of the content (first 200 bytes, cut at a word
    /// boundary).
    pub snippet: Option<String>,
    pub tags: Vec<TagSummary>,
    pub updated_at: String,
}

// ---------------------------------------------------------------------------
// Snippets
// ---------------------------------------------------------------------------

/// A line with its leading `#` markers and the whitespace after them
/// removed.
pub open spec fn strip_heading(l: Seq<char>) -> Seq<char> {
    trim_start_ws(drop_leading(l, '#'))
}

/// `s` without emphasis (`*`) and code (`` ` ``) markers.
pub open spec fn strip_marks(s: Seq<char>) -> Seq<char>
    decreases s.len(),
{
    if s.len() == 0 {
        s
    } else if s.last() == '*' || s.last() == '`' {
        strip_marks(s.drop_last())
    } else {
        strip_marks(s.drop_last()).push(s.last())
    }
}

/// The markup-free text of markdown content: heading markers stripped from
/// each line, lines joined with spaces, emphasis and code markers removed,
/// whitespace collapsed.
pub open spec fn snippet_text(content: Seq<char>) -> Seq<char> {
    let lines = split_on(content, '\n').map_values(|l: Seq<char>| strip_heading(l));
    collapse_ws(strip_marks(join_with(lines, " "@)))
}

/// How many leading characters of `t` fit in `budget` bytes of UTF-8.
pub open spec fn fit_count(t: Seq<char>, budget: nat) -> nat
    decreases t.len(),
{
    if t.len() > 0 && utf8_width(t[0]) <= budget {
        1 + fit_count(t.drop_first(), (budget - utf8_width(t[0])) as nat)
    } else {
        0
    }
}

/// Position of the last occurrence of `c` in `s`.
pub open spec fn last_index_of(s: Seq<char>, c: char) -> Option<int>
    decreases s.len(),
{
    if s.len() == 0 {
        None
    } else if s.last() == c {
        Some(s.len() - 1)
    } else {
        last_index_of(s.drop_last(), c)
    }
}

/// The snippet of `content` within `max_length` bytes: `None` for empty or
/// markup-only content; the whole text when it fits (or when not even its
/// first character fits); otherwise the longest prefix that fits, cut
/// back to its last space, followed by `...`.
pub open spec fn snippet_of(content: Seq<char>, max_length: nat) -> Option<Seq<char>> {
    let t = snippet_text(content);
    if content.len() == 0 || t.len() == 0 {
        None
    } else if utf8_len(t) <= max_length {
        Some(t)
    } else {
        let k = fit_count(t, max_length);
        if k == 0 {
            Some(t)
        } else {
            let cut = t.take(k as int);
            let word_cut = match last_index_of(cut, ' ') {
                Some(i) => cut.take(i),
                None => cut,
            };
            Some(word_cut + "..."@)
        }
    }
}

fn strip_marks_chars(s: &Vec<char>) -> (out: Vec<char>)
    ensures
        out@ == strip_marks(s@),
{
    let mut out: Vec<char> = Vec::new();
    let n = s.len();
    for i in 0..n
        invariant
            n == s@.len(),
            out@ == strip_marks(s@.take(i as int)),
    {
        assert(s@.take(i + 1).drop_last() =~= s@.take(i as int));
        if s[i] != '*' && s[i] != '`' {
            out.push(s[i]);
        }
    }
    assert(s@.take(n as int) =~= s@);
    out
}

proof fn lemma_fit_count_step(t: Seq<char>, k: int, budget: nat, used: nat)
    requires
        0 <= k < t.len(),
        used == utf8_len(t.take(k)),
        used <= budget,
        fit_count(t, budget) == k + fit_count(t.skip(k), (budget - used) as nat),
        used + utf8_width(t[k]) <= budget,
    ensures
        fit_count(t, budget) == (k + 1) + fit_count(t.skip(k + 1), (budget - used - utf8_width(t[k])) as nat),
        utf8_len(t.take(k + 1)) == used + utf8_width(t[k]),
{
    assert(t.skip(k)[0] == t[k]);
    assert(t.skip(k).drop_first() =~= t.skip(k + 1));
    assert(t.take(k + 1).drop_last() =~= t.take(k));
}

/// Position of the last `c` among the first `k` characters of `s`.
fn last_position(s: &Vec<char>, k: usize, c: char) -> (r: Option<usize>)
    requires
        k <= s@.len(),
    ensures
        match r {
            Some(p) => last_index_of(s@.take(k as int), c) == Some(p as int) && p < k,
            None => last_index_of(s@.take(k as int), c) is None,
        },
{
    let mut j: usize = k;
    while j > 0
        invariant
            j <= k,
            k <= s@.len(),
            last_index_of(s@.take(k as int), c) == last_index_of(s@.take(j as int), c),
        decreases j,
    {
        assert(s@.take(j as int).drop_last() =~= s@.take(j - 1));
        if s[j - 1] == c {
            return Some(j - 1);
        }
        j = j - 1;
    }
    None
}

proof fn lemma_fit_count_within(t: Seq<char>, budget: nat)
    ensures
        fit_count(t, budget) <= t.len(),
        utf8_len(t.take(fit_count(t, budget) as int)) <= budget,
    decreases t.len(),
{
    if t.len() > 0 && utf8_width(t[0]) <= budget {
        let rest = t.drop_first();
        let b2 = (budget - utf8_width(t[0])) as nat;
        lemma_fit_count_within(rest, b2);
        let k = fit_count(t, budget);
        assert(t.take(k as int) =~= seq![t[0]] + rest.take(k - 1));
        lemma_utf8_len_concat(seq![t[0]], rest.take(k - 1));
        assert(utf8_len(seq![t[0]]) == utf8_width(t[0])) by {
            assert(seq![t[0]].drop_last() =~= Seq::<char>::empty());
            assert(utf8_len(Seq::<char>::empty()) == 0);
            assert(seq![t[0]].last() == t[0]);
        }
    } else {
        assert(t.take(0) =~= Seq::<char>::empty());
    }
}

proof fn lemma_prefix_shorter(s: Seq<char>, i: int)
    requires
        0 <= i <= s.len(),
    ensures
        utf8_len(s.take(i)) <= utf8_len(s),
{
    assert(s =~= s.take(i) + s.skip(i));
    lemma_utf8_len_concat(s.take(i), s.skip(i));
}

/// A snippet holds at most `max_length` bytes of text plus the three-byte
/// `...` marker, unless not even the first character of the text fits (the
/// text is then kept whole).
pub proof fn law_snippet_within_budget(content: Seq<char>, max_length: nat)
    ensures
        snippet_of(content, max_length) matches Some(s) ==> (utf8_len(s) <= max_length + 3 || fit_count(
            snippet_text(content),
            max_length,
        ) == 0),
{
    let t = snippet_text(content);
    if content.len() > 0 && t.len() > 0 && utf8_len(t) > max_length && fit_count(t, max_length) > 0 {
        let k = fit_count(t, max_length);
        lemma_fit_count_within(t, max_length);
        let cut = t.take(k as int);
        let word_cut = match last_index_of(cut, ' ') {
            Some(i) => cut.take(i),
            None => cut,
        };
        match last_index_of(cut, ' ') {
            Some(i) => {
                lemma_last_index_in_range(cut, ' ');
                lemma_prefix_shorter(cut, i);
            },
            None => {},
        }
        reveal_strlit("...");
        lemma_utf8_len_concat(word_cut, "..."@);
        assert(utf8_len("..."@) == 3) by {
            reveal_with_fuel(utf8_len, 4);
        }
    }
}

proof fn lemma_last_index_in_range(s: Seq<char>, c: char)
    ensures
        last_index_of(s, c) matches Some(i) ==> 0 <= i < s.len(),
    decreases s.len(),
{
    if s.len() > 0 && s.last() != c {
        lemma_last_index_in_range(s.drop_last(), c);
    }
}

/// `last_index_of` finds the last occurrence: when it names a position,
/// `c` stands there and nowhere after it; when it names none, `c` does not
/// occur.
pub proof fn law_last_index_is_last(s: Seq<char>, c: char)
    ensures
        last_index_of(s, c) matches Some(i) ==> 0 <= i < s.len() && s[i] == c && forall|j: int|
            i < j < s.len() ==> s[j] != c,
        last_index_of(s, c) is None <==> !s.contains(c),
    decreases s.len(),
{
    if s.len() > 0 {
        let init = s.drop_last();
        law_last_index_is_last(init, c);
        if s.last() != c {
            assert forall|j: int| 0 <= j < init.len() implies init[j] == s[j] by {}
            if s.contains(c) {
                let k = choose|k: int| 0 <= k < s.len() && s[k] == c;
                assert(k < s.len() - 1);
                assert(init[k] == c);
            }
            if init.contains(c) {
                let k = choose|k: int| 0 <= k < init.len() && init[k] == c;
                assert(s[k] == c);
            }
        } else {
            assert(s[s.len() - 1] == c);
        }
    }
}

/// A snippet cut inside the text ends at the last space of the longest
/// prefix that fits: what precedes `...` is that prefix up to a space with
/// no space after it in the prefix, or the whole prefix when it holds no
/// space.
pub proof fn law_snippet_cuts_at_last_space(content: Seq<char>, max_length: nat)
    requires
        snippet_text(content).len() > 0,
        content.len() > 0,
        utf8_len(snippet_text(content)) > max_length,
        fit_count(snippet_text(content), max_length) > 0,
    ensures
        ({
            let t = snippet_text(content);
            let cut = t.take(fit_count(t, max_length) as int);
            exists|w: Seq<char>|
                snippet_of(content, max_length) == Some(w + "..."@) && w.len() <= cut.len() && w == cut.take(
                    w.len() as int,
                ) && (w.len() < cut.len() ==> cut[w.len() as int] == ' ' && forall|j: int|
                    w.len() < j < cut.len() ==> cut[j] != ' ') && (w.len() == cut.len() ==> !cut.contains(' '))
        }),
{
    let t = snippet_text(content);
    let cut = t.take(fit_count(t, max_length) as int);
    law_last_index_is_last(cut, ' ');
    let w = match last_index_of(cut, ' ') {
        Some(i) => cut.take(i),
        None => cut,
    };
    assert(w == cut.take(w.len() as int));
    assert(snippet_of(content, max_length) == Some(w + "..."@));
}

/// Generates a compact snippet from markdown content: strips heading,
/// emphasis and code markers, collapses whitespace, and truncates at a
/// word boundary within `max_length` bytes, marking a cut with `...`.
pub fn generate_snippet(content: &str, max_length: usize) -> (r: Option<String>)
    ensures
        match r {
            Some(s) => snippet_of(content@, max_length as nat) == Some(s@),
            None => snippet_of(content@, max_length as nat) is None,
        },
{
    let v = chars_of(content);
    if v.len() == 0 {
        return None;
    }
    // Strip heading markers line by line, then join the lines.
    let lines = split_chars(&v, '\n');
    let mut stripped: Vec<Vec<char>> = Vec::new();
    let nl = lines.len();
    let ghost line_views = lines@.map_values(|p: Vec<char>| p@);
    for i in 0..nl
        invariant
            nl == lines@.len(),
            line_views == lines@.map_values(|p: Vec<char>| p@),
            stripped@.map_values(|p: Vec<char>| p@) == line_views.take(i as int).map_values(
                |l: Seq<char>| strip_heading(l),
            ),
    {
        let ghost before = stripped@;
        let line = strip_leading(&lines[i], '#');
        assert(line@ == strip_heading(line_views[i as int]));
        stripped.push(line);
        assert(stripped@.map_values(|p: Vec<char>| p@) =~= before.map_values(|p: Vec<char>| p@).push(line@));
        assert(line_views.take(i + 1).map_values(|l: Seq<char>| strip_heading(l)) =~= line_views.take(
            i as int,
        ).map_values(|l: Seq<char>| strip_heading(l)).push(strip_heading(line_views[i as int])));
        assert(stripped@.map_values(|p: Vec<char>| p@) =~= line_views.take(i + 1).map_values(
            |l: Seq<char>| strip_heading(l),
        ));
    }
    assert(line_views.take(nl as int) =~= line_views);
    let sep = vec![' '];
    assert(sep@ =~= " "@) by {
        reveal_strlit(" ");
    }
    let joined = join_chars(&stripped, sep.as_slice());
    let unmarked = strip_marks_chars(&joined);
    let t = collapse_whitespace(&unmarked);
    assert(t@ == snippet_text(content@));
    if t.len() == 0 {
        return None;
    }
    if !utf8_len_exceeds(t.as_slice(), max_length) {
        return Some(string_from_chars(t.as_slice()));
    }
    // Longest prefix that fits in max_length bytes.
    let n = t.len();
    let mut k: usize = 0;
    let mut used: u128 = 0;
    assert(t@.skip(0) =~= t@);
    assert(t@.take(0) =~= Seq::<char>::empty());
    while k < n && used + char_utf8_width(t[k]) as u128 <= max_length as u128
        invariant
            n == t@.len(),
            k <= n,
            used == utf8_len(t@.take(k as int)),
            used <= max_length,
            fit_count(t@, max_length as nat) == k + fit_count(t@.skip(k as int), (max_length - used) as nat),
        decreases n - k,
    {
        proof {
            lemma_fit_count_step(t@, k as int, max_length as nat, used as nat);
        }
        used = used + char_utf8_width(t[k]) as u128;
        k = k + 1;
    }
    proof {
        if k < n {
            assert(t@.skip(k as int)[0] == t@[k as int]);
        } else {
            assert(t@.skip(k as int).len() == 0);
        }
        assert(fit_count(t@, max_length as nat) == k);
    }
    if k == 0 {
        return Some(string_from_chars(t.as_slice()));
    }
    // Cut back to the last space of the prefix.
    let end: usize = match last_position(&t, k, ' ') {
        Some(p) => p,
        None => k,
    };
    let mut out: Vec<char> = Vec::new();
    for i in 0..end
        invariant
            end <= k,
            k <= n,
            n == t@.len(),
            out@ == t@.take(i as int),
    {
        out.push(t[i]);
        assert(out@ =~= t@.take(i + 1));
    }
    out.push('.');
    out.push('.');
    out.push('.');
    proof {
        reveal_strlit("...");
        let cut = t@.take(k as int);
        let word_cut = match last_index_of(cut, ' ') {
            Some(i) => cut.take(i),
            None => cut,
        };
        assert(t@.take(end as int) =~= word_cut);
        assert(out@ =~= word_cut + "..."@);
    }
    Some(string_from_chars(out.as_slice()))
}

/// The compact search form of an asset: its snippet is the 200-byte
/// snippet of its content (none without content), its tags keep only
/// category and value.
pub fn to_search_result(asset: Asset) -> (r: SearchResult)
    ensures
        r.id@ == asset.id@,
        r.title@ == asset.title@,
        r.updated_at@ == asset.updated_at@,
        match r.snippet {
            Some(s) => snippet_of(content_text(asset.content), 200) == Some(s@),
            None => snippet_of(content_text(asset.content), 200) is None,
        },
        r.tags@.len() == asset.tags@.len(),
        forall|i: int| 0 <= i < r.tags@.len() ==> (#[trigger] r.tags@[i]).category@ == asset.tags@[i].category@
            && r.tags@[i].value@ == asset.tags@[i].value@,
{
    let snippet = match &asset.content {
        Some(c) => generate_snippet(c.as_str(), 200),
        None => generate_snippet("", 200),
    };
    proof {
        reveal_strlit("");
    }
    let mut tags: Vec<TagSummary> = Vec::new();
    let n = asset.tags.len();
    for i in 0..n
        invariant
            n == asset.tags@.len(),
            tags@.len() == i,
            forall|j: int| 0 <= j < i ==> (#[trigger] tags@[j]).category@ == asset.tags@[j].category@
                && tags@[j].value@ == asset.tags@[j].value@,
    {
        tags.push(TagSummary { category: asset.tags[i].category.clone(), value: asset.tags[i].value.clone() });
    }
    SearchResult { id: asset.id, title: asset.title, snippet, tags, updated_at: asset.updated_at }
}

/// The content of an asset as text (empty when absent).
pub open spec fn content_text(c: Option<String>) -> Seq<char> {
    match c {
        Some(s) => s@,
        None => Seq::empty(),
    }
}

} // verus!
