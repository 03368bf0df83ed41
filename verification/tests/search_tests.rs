use combo_box::search::{build_matchers, search};

fn strings(xs: &[&str]) -> Vec<String> {
    xs.iter().map(|s| s.to_string()).collect()
}

#[test]
fn matchers_lowercase_and_strip() {
    let options = strings(&["New York", "Bob!", "a-b_c 9", "Caf\u{e9}"]);
    let matchers = build_matchers(&options);
    assert_eq!(matchers, strings(&["newyork", "bob", "abc9", "caf"]));
}

#[test]
fn matcher_depends_on_display_string_only() {
    let first = build_matchers(&strings(&["Alice", "Bob"]));
    let second = build_matchers(&strings(&["Zoe", "Quinn", "Alice"]));
    assert_eq!(first[0], second[2]);
}

#[test]
fn search_substring_filter() {
    let options = strings(&["Alice", "Bob", "Charlie"]);
    let matchers = build_matchers(&options);
    let found = search(&options, &matchers, "li");
    assert_eq!(found, strings(&["Alice", "Charlie"]));
}

#[test]
fn search_multi_token_and_semantics() {
    let options = strings(&["New York", "Newark"]);
    let matchers = build_matchers(&options);
    assert_eq!(matchers, strings(&["newyork", "newark"]));
    let found = search(&options, &matchers, "new ar");
    assert_eq!(found, strings(&["Newark"]));
}

#[test]
fn search_empty_query_returns_all() {
    let options = strings(&["Alice", "Bob", "Charlie"]);
    let matchers = build_matchers(&options);
    let found = search(&options, &matchers, "");
    assert_eq!(found, options);
}

#[test]
fn search_token_order_does_not_matter() {
    let options = strings(&["New York", "Newark", "Yonkers"]);
    let matchers = build_matchers(&options);
    let one = search(&options, &matchers, "new ar");
    let other = search(&options, &matchers, "ar new");
    assert_eq!(one, other);
}

#[test]
fn search_is_case_insensitive() {
    let options = strings(&["Alice", "Bob"]);
    let matchers = build_matchers(&options);
    assert_eq!(search(&options, &matchers, "ALI"), strings(&["Alice"]));
}

#[test]
fn search_no_match_is_empty() {
    let options = strings(&["Alice", "Bob"]);
    let matchers = build_matchers(&options);
    assert_eq!(search(&options, &matchers, "zzz"), Vec::<String>::new());
}

#[test]
fn search_empty_candidates() {
    let options: Vec<String> = Vec::new();
    let matchers = build_matchers(&options);
    assert_eq!(search(&options, &matchers, "a"), Vec::<String>::new());
}

#[test]
fn search_keeps_original_order() {
    let options = strings(&["bab", "ab", "ba", "abab"]);
    let matchers = build_matchers(&options);
    assert_eq!(search(&options, &matchers, "ab"), strings(&["bab", "ab", "abab"]));
}

#[test]
fn tokenize_splits_on_non_alphanumerics() {
    let tokens = combo_box::text::tokenize("new ar");
    assert_eq!(tokens, vec![vec!['n', 'e', 'w'], vec!['a', 'r']]);
    let tokens = combo_box::text::tokenize("  A-9b ");
    assert_eq!(tokens, vec![vec!['a'], vec!['9', 'b']]);
    assert_eq!(combo_box::text::tokenize(""), Vec::<Vec<char>>::new());
}

#[test]
fn search_punctuation_only_query_returns_all() {
    let options = strings(&["Alice", "Bob"]);
    let matchers = build_matchers(&options);
    assert_eq!(search(&options, &matchers, " ,;- "), options);
}
