//! Tags: free-form `{category, value}` pairs attached to assets.

use vstd::prelude::*;

use crate::text::{chars_of, owned, utf8_len, utf8_len_exceeds};

verus! {

/// A character allowed in tag categories and values: an ASCII letter or
/// digit, `_`, `/` or `-`.
pub open spec fn is_tag_char(c: char) -> bool {
    ('a' <= c && c <= 'z') || ('A' <= c && c <= 'Z') || ('0' <= c && c <= '9') || c == '_' || c == '/' || c
        == '-'
}

/// `s` is nonempty and made only of tag characters.
pub open spec fn tag_charset_ok(s: Seq<char>) -> bool {
    s.len() > 0 && forall|i: int| 0 <= i < s.len() ==> is_tag_char(#[trigger] s[i])
}

/// The regular expression tag text is checked against.
pub open spec fn tag_pattern() -> Seq<char> {
    "^[a-zA-Z0-9_/-]+$"@
}

/// Whether `text` matches the regular expression `pattern`
/// (`regex::Regex::new` then `Regex::is_match`). For the tag pattern
/// `^[a-zA-Z0-9_/-]+$`, regex syntax makes a match mean: one or more
/// characters, each an ASCII letter or digit, `_`, `/` or `-`, spanning the
/// whole text (`^` and `$` anchor at the text's ends).
#[verifier::external_body]
fn regex_is_match(pattern: &str, text: &str) -> (m: bool)
    requires
        pattern@ == tag_pattern(),
    ensures
        m == tag_charset_ok(text@),
{
    match regex::Regex::new(pattern) {
        Ok(re) => re.is_match(text),
        Err(_) => false,
    }
}

/// Why a tag category or value was refused.
pub open spec fn tag_text_error(s: Seq<char>, what_empty: Seq<char>, what_long: Seq<char>, what_chars: Seq<char>) -> Option<Seq<char>> {
    if s.len() == 0 {
        Some(what_empty)
    } else if utf8_len(s) > 64 {
        Some(what_long)
    } else if !tag_charset_ok(s) {
        Some(what_chars)
    } else {
        None
    }
}

/// The verdict on a category.
pub open spec fn category_verdict(s: Seq<char>) -> Option<Seq<char>> {
    tag_text_error(
        s,
        "Category cannot be empty"@,
        "Category cannot exceed 64 characters"@,
        "Category can only contain alphanumeric characters, hyphens, underscores, and forward slashes"@,
    )
}

/// The verdict on a value.
pub open spec fn value_verdict(s: Seq<char>) -> Option<Seq<char>> {
    tag_text_error(
        s,
        "Value cannot be empty"@,
        "Value cannot exceed 64 characters"@,
        "Value can only contain alphanumeric characters, hyphens, underscores, and forward slashes"@,
    )
}

fn check_tag_text(s: &str, empty: &str, long: &str, bad_chars: &str) -> (r: Result<(), String>)
    ensures
        match r {
            Ok(()) => tag_text_error(s@, empty@, long@, bad_chars@) is None,
            Err(e) => tag_text_error(s@, empty@, long@, bad_chars@) == Some(e@),
        },
{
    let v = chars_of(s);
    if v.len() == 0 {
        return Err(owned(empty));
    }
    if utf8_len_exceeds(v.as_slice(), 64) {
        return Err(owned(long));
    }
    if !regex_is_match("^[a-zA-Z0-9_/-]+$", s) {
        return Err(owned(bad_chars));
    }
    Ok(())
}

/// Validates a tag category: nonempty, at most 64 bytes, only ASCII
/// letters, digits, `_`, `/` and `-`.
pub fn validate_category(category: &str) -> (r: Result<(), String>)
    ensures
        match r {
            Ok(()) => category_verdict(category@) is None,
            Err(e) => category_verdict(category@) == Some(e@),
        },
{
    check_tag_text(
        category,
        "Category cannot be empty",
        "Category cannot exceed 64 characters",
        "Category can only contain alphanumeric characters, hyphens, underscores, and forward slashes",
    )
}

/// Validates a tag value: nonempty, at most 64 bytes, only ASCII letters,
/// digits, `_`, `/` and `-`.
pub fn validate_value(value: &str) -> (r: Result<(), String>)
    ensures
        match r {
            Ok(()) => value_verdict(value@) is None,
            Err(e) => value_verdict(value@) == Some(e@),
        },
{
    check_tag_text(
        value,
        "Value cannot be empty",
        "Value cannot exceed 64 characters",
        "Value can only contain alphanumeric characters, hyphens, underscores, and forward slashes",
    )
}

/// A tag attached to an asset.
#[derive(Debug)]
pub struct Tag {
    pub id: String,
    pub category: String,
    pub value: String,
    pub added_by: String,
    /// RFC 3339 time the tag was added.
    pub added_at: String,
}

/// Request to add a tag to an asset.
#[derive(Debug)]
pub struct AddTagRequest {
    pub category: String,
    pub value: String,
}

impl AddTagRequest {
    /// Validates the category, then the value; the first refusal is returned.
    pub fn validate(&self) -> (r: Result<(), String>)
        ensures
            match r {
                Ok(()) => category_verdict(self.category@) is None && value_verdict(self.value@) is None,
                Err(e) => category_verdict(self.category@) == Some(e@) || (category_verdict(self.category@) is None
                    && value_verdict(self.value@) == Some(e@)),
            },
    {
        validate_category(self.category.as_str())?;
        validate_value(self.value.as_str())?;
        Ok(())
    }
}

/// A tag that passes validation has a category and value of 1 to 64
/// characters drawn only from ASCII letters, digits, `_`, `/` and `-`.
pub proof fn law_valid_tag_text(s: Seq<char>)
    requires
        category_verdict(s) is None || value_verdict(s) is None,
    ensures
        1 <= s.len() <= 64,
        forall|i: int| 0 <= i < s.len() ==> is_tag_char(#[trigger] s[i]),
{
    lemma_utf8_len_at_least_len(s);
}

proof fn lemma_utf8_len_at_least_len(s: Seq<char>)
    ensures
        utf8_len(s) >= s.len(),
    decreases s.len(),
{
    if s.len() > 0 {
        lemma_utf8_len_at_least_len(s.drop_last());
    }
}

} // verus!
