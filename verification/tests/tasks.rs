use nvs_shell::workbench::tasks::{fuzzy, fuzzy_checked};

#[test]
fn fuzzy_prefers_substrings_then_tight_subsequences() {
    assert_eq!(fuzzy("ask", "runtime/lua/nvs/ask.lua").map(|m| m.0), Some(16));
    let (a, _) = fuzzy("nvsask", "runtime/lua/nvs/ask.lua").unwrap();
    let (b, _) = fuzzy("nvsask", "nvs/x/y/z/ask").unwrap();
    assert!(a < b);
    assert!(fuzzy("zzz", "abc").is_none());
}

#[test]
fn empty_query_matches_everything_at_zero() {
    assert_eq!(fuzzy("", "anything"), Some((0, Vec::new())));
    assert_eq!(fuzzy("", ""), Some((0, Vec::new())));
}

#[test]
fn substring_hits_are_consecutive_from_the_match() {
    assert_eq!(fuzzy("lua", "runtime/lua/x"), Some((8, vec![8, 9, 10])));
}

#[test]
fn matching_ignores_case() {
    // The query is lowercased before matching, so this needs the lowercase wrapper to work.
    assert_eq!(fuzzy("ASK", "Ask.lua"), Some((0, vec![0, 1, 2])));
    assert_eq!(fuzzy_checked("ASK", "x/ask"), Some(Some((2, vec![2, 3, 4]))));
}

#[test]
fn subsequence_score_counts_spread_and_start() {
    // "ab" in "xaxb": start 1, hits 1 and 3, spread 2: 100 + 2 * 4 + 1.
    assert_eq!(fuzzy("ab", "xaxb"), Some((109, vec![1, 3])));
}
