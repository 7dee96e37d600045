use maccy::model::{ClipboardContent, ClipboardItem, SearchMode};
use maccy::search::{char_indices_to_ranges, SearchEngine};

fn make_item(id: &str, title: &str) -> ClipboardItem {
    ClipboardItem {
        id: id.to_string(),
        application: None,
        first_copied_at: 0,
        last_copied_at: 0,
        number_of_copies: 1,
        pin: None,
        title: title.to_string(),
        contents: vec![ClipboardContent {
            content_type: "public.utf8-plain-text".to_string(),
            value: Some(title.as_bytes().to_vec()),
        }],
        sync_timestamp: 0,
        sync_source: None,
        sync_deleted: false,
    }
}

#[test]
fn test_exact_search() {
    let items = vec![
        make_item("1", "Hello World"),
        make_item("2", "hello there"),
        make_item("3", "Goodbye"),
    ];
    let results = SearchEngine::search("hello", &items, SearchMode::Exact);
    assert_eq!(results.len(), 2);
}

#[test]
fn test_fuzzy_search() {
    let items = vec![
        make_item("1", "Hello World"),
        make_item("2", "Help wanted"),
        make_item("3", "Goodbye"),
    ];
    let results = SearchEngine::search("hlo", &items, SearchMode::Fuzzy);
    assert!(!results.is_empty());
    assert_eq!(results[0].item.id, "1");
}

#[test]
fn test_regexp_search() {
    let items = vec![
        make_item("1", "Hello World"),
        make_item("2", "hello there"),
        make_item("3", "Goodbye"),
    ];
    let results = SearchEngine::search("Hel+o", &items, SearchMode::Regexp);
    assert_eq!(results.len(), 1);
    assert_eq!(results[0].item.id, "1");
}

#[test]
fn test_mixed_search_falls_through() {
    let items = vec![make_item("1", "Hello World"), make_item("2", "Goodbye")];
    let results = SearchEngine::search("hlw", &items, SearchMode::Mixed);
    assert!(!results.is_empty());
}

#[test]
fn test_empty_query_returns_all() {
    let items = vec![make_item("1", "Hello"), make_item("2", "World")];
    let results = SearchEngine::search("", &items, SearchMode::Exact);
    assert_eq!(results.len(), 2);
}

#[test]
fn empty_query_reports_items_unscored_in_order() {
    let items = vec![make_item("1", "Hello"), make_item("2", "World")];
    let results = SearchEngine::search("", &items, SearchMode::Fuzzy);
    assert_eq!(results.len(), 2);
    assert_eq!(results[0].item.id, "1");
    assert_eq!(results[1].item.id, "2");
    assert!(results.iter().all(|r| r.score.is_none() && r.ranges.is_empty()));
}

#[test]
fn exact_search_reports_character_range() {
    let items = vec![make_item("1", "Hello World")];
    let results = SearchEngine::search("WORLD", &items, SearchMode::Exact);
    assert_eq!(results.len(), 1);
    assert!(results[0].score.is_none());
    assert_eq!(results[0].ranges.len(), 1);
    assert_eq!((results[0].ranges[0].start, results[0].ranges[0].end), (6, 11));
}

#[test]
fn exact_search_counts_characters_not_bytes() {
    let items = vec![make_item("1", "\u{dc}n\u{ef}code hello")];
    let results = SearchEngine::search("hello", &items, SearchMode::Exact);
    assert_eq!(results.len(), 1);
    assert_eq!((results[0].ranges[0].start, results[0].ranges[0].end), (8, 13));
}

#[test]
fn exact_search_no_match() {
    let items = vec![make_item("1", "Hello World")];
    let results = SearchEngine::search("xyz", &items, SearchMode::Exact);
    assert!(results.is_empty());
}

#[test]
fn exact_search_on_titles_whose_lowercase_grows() {
    let items = vec![make_item("1", "\u{130}\u{130}a")];
    let results = SearchEngine::search_checked("a", &items, SearchMode::Exact).unwrap();
    assert_eq!(results.len(), 1);
    assert_eq!((results[0].ranges[0].start, results[0].ranges[0].end), (2, 3));
    let results = SearchEngine::search("\u{130}a", &items, SearchMode::Exact);
    assert_eq!((results[0].ranges[0].start, results[0].ranges[0].end), (1, 3));
}

#[test]
fn exact_search_ignores_case_of_non_ascii_letters() {
    let items = vec![make_item("1", "Une \u{c9}COLE"), make_item("2", "ecole")];
    let results = SearchEngine::search("\u{e9}cole", &items, SearchMode::Exact);
    assert_eq!(results.len(), 1);
    assert_eq!(results[0].item.id, "1");
    assert_eq!((results[0].ranges[0].start, results[0].ranges[0].end), (4, 9));
}

#[test]
fn regexp_search_reports_match_range() {
    let items = vec![make_item("1", "say Hello World")];
    let results = SearchEngine::search("W.r", &items, SearchMode::Regexp);
    assert_eq!(results.len(), 1);
    assert_eq!((results[0].ranges[0].start, results[0].ranges[0].end), (10, 13));
}

#[test]
fn invalid_regexp_finds_nothing() {
    let items = vec![make_item("1", "(((")];
    let results = SearchEngine::search("(", &items, SearchMode::Regexp);
    assert!(results.is_empty());
}

#[test]
fn mixed_search_prefers_exact() {
    let items = vec![make_item("1", "Hello World"), make_item("2", "world peace")];
    let results = SearchEngine::search("world", &items, SearchMode::Mixed);
    assert_eq!(results.len(), 2);
    assert!(results.iter().all(|r| r.score.is_none()));
}

#[test]
fn mixed_search_uses_regexp_second() {
    let items = vec![make_item("1", "abc123"), make_item("2", "xyz")];
    let results = SearchEngine::search("[0-9]+", &items, SearchMode::Mixed);
    assert_eq!(results.len(), 1);
    assert_eq!(results[0].item.id, "1");
    assert_eq!((results[0].ranges[0].start, results[0].ranges[0].end), (3, 6));
}

#[test]
fn fuzzy_search_scores_and_orders() {
    let items = vec![
        make_item("1", "Goodbye"),
        make_item("2", "Help wanted"),
        make_item("3", "Hello World"),
    ];
    let results = SearchEngine::search("hlo", &items, SearchMode::Fuzzy);
    assert!(!results.is_empty());
    assert_eq!(results[0].item.id, "3");
    for w in results.windows(2) {
        assert!(w[0].score.unwrap() <= w[1].score.unwrap());
    }
    for r in &results {
        assert!(r.score.unwrap() < 0);
    }
    assert!(results.iter().all(|r| r.score.is_some() && !r.ranges.is_empty()));
}

#[test]
fn indices_to_ranges_merges_runs() {
    let ranges = char_indices_to_ranges(&[0, 1, 2, 5, 6, 9]);
    let pairs: Vec<(i64, i64)> = ranges.iter().map(|r| (r.start, r.end)).collect();
    assert_eq!(pairs, vec![(0, 3), (5, 7), (9, 10)]);
}

#[test]
fn indices_to_ranges_empty() {
    assert!(char_indices_to_ranges(&[]).is_empty());
}

#[test]
fn indices_to_ranges_take_indices_as_i64() {
    let ranges = char_indices_to_ranges(&[usize::MAX, 0, 2]);
    let pairs: Vec<(i64, i64)> = ranges.iter().map(|r| (r.start, r.end)).collect();
    assert_eq!(pairs, vec![(-1, 1), (2, 3)]);
}

#[test]
fn exact_search_lowercases_whole_titles() {
    let items = vec![make_item("1", "\u{39f}\u{394}\u{39f}\u{3a3}")];
    let results = SearchEngine::search("\u{3c2}", &items, SearchMode::Exact);
    assert_eq!(results.len(), 1);
    assert_eq!((results[0].ranges[0].start, results[0].ranges[0].end), (3, 4));
}

#[test]
fn exact_search_ascii_ranges() {
    let items = vec![make_item("1", "Say HELLO there"), make_item("2", "nothing")];
    let results = SearchEngine::search("hello", &items, SearchMode::Exact);
    assert_eq!(results.len(), 1);
    assert_eq!((results[0].ranges[0].start, results[0].ranges[0].end), (4, 9));
}
