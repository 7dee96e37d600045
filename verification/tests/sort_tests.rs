use maccy::model::{ClipboardItem, SortBy};
use maccy::sort::sort_items;

fn make_item(id: &str, last: i64, first: i64, copies: i32, pin: Option<&str>) -> ClipboardItem {
    ClipboardItem {
        id: id.to_string(),
        application: None,
        first_copied_at: first,
        last_copied_at: last,
        number_of_copies: copies,
        pin: pin.map(|s| s.to_string()),
        title: format!("Item {}", id),
        contents: vec![],
        sync_timestamp: 0,
        sync_source: None,
        sync_deleted: false,
    }
}

fn ids(items: &[ClipboardItem]) -> Vec<String> {
    items.iter().map(|i| i.id.clone()).collect()
}

#[test]
fn test_sort_by_last_copied() {
    let items = vec![
        make_item("1", 100, 50, 1, None),
        make_item("2", 200, 50, 1, None),
        make_item("3", 150, 50, 1, None),
    ];
    let sorted = sort_items(items, SortBy::LastCopiedAt, true);
    assert_eq!(sorted[0].id, "2");
    assert_eq!(sorted[1].id, "3");
    assert_eq!(sorted[2].id, "1");
}

#[test]
fn test_sort_by_number_of_copies() {
    let items = vec![
        make_item("1", 100, 50, 3, None),
        make_item("2", 100, 50, 1, None),
        make_item("3", 100, 50, 5, None),
    ];
    let sorted = sort_items(items, SortBy::NumberOfCopies, true);
    assert_eq!(sorted[0].id, "3");
    assert_eq!(sorted[1].id, "1");
    assert_eq!(sorted[2].id, "2");
}

#[test]
fn test_sort_pinned_to_top() {
    let items = vec![
        make_item("1", 200, 50, 1, None),
        make_item("2", 100, 50, 1, Some("b")),
        make_item("3", 150, 50, 1, None),
    ];
    let sorted = sort_items(items, SortBy::LastCopiedAt, true);
    assert_eq!(sorted[0].id, "2");
    assert_eq!(sorted[1].id, "1");
    assert_eq!(sorted[2].id, "3");
}

#[test]
fn test_sort_pinned_to_bottom() {
    let items = vec![
        make_item("1", 200, 50, 1, None),
        make_item("2", 100, 50, 1, Some("b")),
        make_item("3", 150, 50, 1, None),
    ];
    let sorted = sort_items(items, SortBy::LastCopiedAt, false);
    assert_eq!(sorted[0].id, "1");
    assert_eq!(sorted[1].id, "3");
    assert_eq!(sorted[2].id, "2");
}

#[test]
fn sort_by_first_copied_newest_first() {
    let items = vec![
        make_item("1", 0, 10, 1, None),
        make_item("2", 0, 30, 1, None),
        make_item("3", 0, 20, 1, None),
    ];
    let sorted = sort_items(items, SortBy::FirstCopiedAt, true);
    assert_eq!(ids(&sorted), vec!["2", "3", "1"]);
}

#[test]
fn sort_keeps_order_of_equal_keys() {
    let items = vec![
        make_item("a", 100, 0, 1, None),
        make_item("b", 200, 0, 1, Some("x")),
        make_item("c", 100, 0, 1, None),
        make_item("d", 200, 0, 1, Some("y")),
        make_item("e", 100, 0, 1, None),
    ];
    let sorted = sort_items(items, SortBy::LastCopiedAt, true);
    assert_eq!(ids(&sorted), vec!["b", "d", "a", "c", "e"]);
}

#[test]
fn sort_pinned_group_sorted_by_key_too() {
    let items = vec![
        make_item("1", 10, 0, 1, Some("b")),
        make_item("2", 30, 0, 1, None),
        make_item("3", 20, 0, 1, Some("c")),
    ];
    let sorted = sort_items(items, SortBy::LastCopiedAt, false);
    assert_eq!(ids(&sorted), vec!["2", "3", "1"]);
}

#[test]
fn sort_twice_changes_nothing() {
    let items = vec![
        make_item("1", 5, 9, 2, None),
        make_item("2", 7, 1, 2, Some("b")),
        make_item("3", 5, 3, 4, None),
        make_item("4", 1, 3, 2, None),
    ];
    let once = sort_items(items, SortBy::NumberOfCopies, true);
    let first = ids(&once);
    let twice = sort_items(once, SortBy::NumberOfCopies, true);
    assert_eq!(ids(&twice), first);
    assert_eq!(first, vec!["2", "3", "1", "4"]);
}

#[test]
fn sort_extreme_keys() {
    let items = vec![
        make_item("min", i64::MIN, 0, 1, None),
        make_item("max", i64::MAX, 0, 1, None),
        make_item("zero", 0, 0, 1, None),
    ];
    let sorted = sort_items(items, SortBy::LastCopiedAt, true);
    assert_eq!(ids(&sorted), vec!["max", "zero", "min"]);
}

#[test]
fn sort_empty() {
    let sorted = sort_items(vec![], SortBy::LastCopiedAt, true);
    assert!(sorted.is_empty());
}

#[test]
fn sort_is_deterministic() {
    let make = || {
        vec![
            make_item("1", 3, 0, 1, None),
            make_item("2", 3, 0, 1, Some("b")),
            make_item("3", 9, 0, 1, None),
            make_item("4", 3, 0, 1, None),
        ]
    };
    let a = sort_items(make(), SortBy::LastCopiedAt, false);
    let b = sort_items(make(), SortBy::LastCopiedAt, false);
    assert_eq!(ids(&a), ids(&b));
    assert_eq!(ids(&a), vec!["3", "1", "4", "2"]);
}
