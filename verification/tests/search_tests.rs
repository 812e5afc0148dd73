use pdt::docstore::{plan_asset_list, plan_asset_search, seek_of, DocSort, Seek};
use pdt::query::SortField;
use pdt::search::{build_fts_match_query, fts_query_from_flags, parse_tag_filters, text_search_string, SearchParams};

#[test]
fn fts_query_quotes_every_token() {
    assert_eq!(build_fts_match_query("instance-type"), "\"instance\" \"type\"");
    assert_eq!(build_fts_match_query("type:dispatch"), "\"type\" \"dispatch\"");
    assert_eq!(build_fts_match_query("5063f004"), "\"5063f004\"");
    assert_eq!(build_fts_match_query("mint:"), "\"mint\"");
    assert_eq!(build_fts_match_query("a OR b NEAR(c"), "\"a\" \"OR\" \"b\" \"NEAR\" \"c\"");
    assert_eq!(
        build_fts_match_query("TokenProvider client contract"),
        "\"TokenProvider\" \"client\" \"contract\""
    );
}

#[test]
fn fts_query_keeps_unicode_words() {
    assert_eq!(build_fts_match_query("بانک"), "\"بانک\"");
    assert_eq!(build_fts_match_query("dispatch wiring"), "\"dispatch\" \"wiring\"");
}

#[test]
fn fts_query_of_symbols_is_empty() {
    assert_eq!(build_fts_match_query(""), "");
    assert_eq!(build_fts_match_query("   "), "");
    assert_eq!(build_fts_match_query("\"*()-:"), "");
}

#[test]
fn fts_query_from_given_flags() {
    assert_eq!(fts_query_from_flags("ab-c", &vec![true, true, false, true]), "\"ab\" \"c\"");
    assert_eq!(fts_query_from_flags("ab-c", &vec![false, false, false, false]), "");
}

fn params(tags: Vec<&str>, tag: Option<&str>) -> SearchParams {
    SearchParams {
        limit: 20,
        cursor: None,
        q: None,
        tag: tag.map(|t| t.to_string()),
        tags: tags.into_iter().map(|t| t.to_string()).collect(),
        full_content: false,
    }
}

fn pair(a: &str, b: &str) -> (String, String) {
    (a.to_string(), b.to_string())
}

#[test]
fn tag_filters_from_both_parameters() {
    let p = params(vec!["type:doc", "status:draft,lang:en"], Some("scope:api:v2,junk"));
    assert_eq!(
        parse_tag_filters(&p),
        vec![pair("type", "doc"), pair("status", "draft"), pair("lang", "en"), pair("scope", "api:v2")]
    );
    assert!(parse_tag_filters(&params(vec![], None)).is_empty());
    assert_eq!(parse_tag_filters(&params(vec![":x,"], None)), vec![pair("", "x")]);
}

#[test]
fn text_search_requires_every_word() {
    assert_eq!(text_search_string("rust verus"), "+rust +verus");
    assert_eq!(text_search_string("+rust -go  web"), "+rust -go +web");
    assert_eq!(text_search_string("\"exact phrase\""), "\"exact phrase\"");
    assert_eq!(text_search_string("single"), "single");
}

#[test]
fn document_store_listing_plan() {
    let p = plan_asset_list(10, Some("2024-01-01T00:00:00Z|abc"), Some("document"), "created_at", "Ascending");
    assert_eq!(p.asset_type.as_deref(), Some("document"));
    assert!(p.seek_ascending);
    assert!(matches!(p.sort, DocSort::ByField { field: SortField::CreatedAt, ascending: true }));
    assert_eq!(p.fetch_limit, 11);
    assert!(p.live_only);
    assert_eq!(p.seek_field, SortField::CreatedAt);
    match p.seek {
        Some(Seek::After { millis, id }) => {
            assert_eq!(millis, 1704067200000);
            assert_eq!(id, "abc");
        }
        other => panic!("unexpected {:?}", other),
    }
}

#[test]
fn unreadable_cursor_timestamps_seek_by_the_whole_cursor() {
    match seek_of("not-a-date|abc") {
        Seek::PastId(c) => assert_eq!(c, "not-a-date|abc"),
        other => panic!("unexpected {:?}", other),
    }
    match seek_of("plain") {
        Seek::PastId(c) => assert_eq!(c, "plain"),
        other => panic!("unexpected {:?}", other),
    }
}

#[test]
fn document_store_search_plan() {
    let p = plan_asset_search(Some("two words"), vec![pair("type", "doc")], 5, None);
    assert_eq!(p.text.as_deref(), Some("+two +words"));
    assert_eq!(p.tags, vec![pair("type", "doc")]);
    assert!(matches!(p.sort, DocSort::Relevance));
    assert!(!p.seek_ascending);
    assert_eq!(p.fetch_limit, 6);
    assert!(p.live_only);
    assert_eq!(p.seek_field, SortField::UpdatedAt);
    let p = plan_asset_search(Some(""), vec![], 5, None);
    assert!(p.text.is_none());
    assert!(matches!(p.sort, DocSort::Relevance));
    let p = plan_asset_search(None, vec![], 5, None);
    assert!(matches!(p.sort, DocSort::NewestUpdate));
}

#[test]
fn match_expression_has_no_operator_characters() {
    let q = build_fts_match_query("title:foo* (bar) -baz ^qux +x NEAR/2 \"q\"");
    for c in [':', '*', '(', ')', '-', '^', '+', '/'] {
        assert!(!q.contains(c), "{q}");
    }
    assert_eq!(q, "\"title\" \"foo\" \"bar\" \"baz\" \"qux\" \"x\" \"NEAR\" \"2\" \"q\"");
}
