use maccy::history::{item_from_swift_row, SwiftRow, find_similar, is_transient_type, merge_contents, merge_duplicate, oldest_unpinned, plan_add, toggle_pin_item, update_item_text, AddPlan};
use maccy::model::{ClipboardContent, ClipboardItem};

fn make_item(id: &str, title: &str, types: &[(&str, &[u8])]) -> ClipboardItem {
    ClipboardItem {
        id: id.to_string(),
        application: None,
        first_copied_at: 1000,
        last_copied_at: 1000,
        number_of_copies: 1,
        pin: None,
        title: title.to_string(),
        contents: types
            .iter()
            .map(|(t, v)| ClipboardContent { content_type: t.to_string(), value: Some(v.to_vec()) })
            .collect(),
        sync_timestamp: 1000,
        sync_source: None,
        sync_deleted: false,
    }
}

/// Carry out an add on a history held newest first, as storage does.
fn add(history: &mut Vec<ClipboardItem>, item: ClipboardItem, max_size: i32, is_unlimited: bool) -> ClipboardItem {
    let count = history.len() as i64;
    match plan_add(item, history, count, max_size, is_unlimited) {
        AddPlan::Update(updated) => {
            let pos = history.iter().position(|i| i.id == updated.id).unwrap();
            history[pos] = updated.clone();
            updated
        }
        AddPlan::Insert { evict, item } => {
            history.retain(|i| !evict.contains(&i.id));
            history.insert(0, item.clone());
            item
        }
    }
}

#[test]
fn deduplication_updates_the_stored_item() {
    let mut history = Vec::new();
    add(&mut history, make_item("1", "Hello", &[("public.utf8-plain-text", b"Hello")]), 100, false);
    let mut item2 = make_item("2", "Hello", &[("public.utf8-plain-text", b"Hello")]);
    item2.last_copied_at = 2000;
    let result = add(&mut history, item2, 100, false);
    assert_eq!(result.id, "1");
    assert_eq!(result.number_of_copies, 2);
    assert_eq!(result.last_copied_at, 2000);
    assert_eq!(history.len(), 1);
}

#[test]
fn size_limit_with_repeated_content() {
    let mut history = Vec::new();
    for i in 0..5 {
        let item = make_item(&format!("{}", i), &format!("Item {}", i), &[("public.utf8-plain-text", b"text")]);
        add(&mut history, item, 3, false);
    }
    assert!(history.len() <= 3);
}

#[test]
fn size_limit_evicts_oldest_unpinned() {
    let mut history = Vec::new();
    let mut first = make_item("0", "Item 0", &[("public.utf8-plain-text", b"0")]);
    first.pin = Some("b".to_string());
    add(&mut history, first, 3, false);
    for i in 1..6 {
        let text = format!("{}", i);
        let item = make_item(&text, &format!("Item {}", i), &[("public.utf8-plain-text", text.as_bytes())]);
        add(&mut history, item, 3, false);
    }
    let ids: Vec<&str> = history.iter().map(|i| i.id.as_str()).collect();
    assert_eq!(ids, vec!["5", "4", "0"]);
}

#[test]
fn unlimited_history_keeps_everything() {
    let mut history = Vec::new();
    for i in 0..5 {
        let text = format!("{}", i);
        add(&mut history, make_item(&text, &text, &[("public.utf8-plain-text", text.as_bytes())]), 2, true);
    }
    assert_eq!(history.len(), 5);
}

#[test]
fn plan_insert_lists_excess_oldest_first() {
    let existing = vec![
        make_item("c", "c", &[("t", b"c")]),
        make_item("b", "b", &[("t", b"b")]),
        make_item("a", "a", &[("t", b"a")]),
    ];
    match plan_add(make_item("d", "d", &[("t", b"d")]), &existing, 3, 2, false) {
        AddPlan::Insert { evict, item } => {
            assert_eq!(evict, vec!["a".to_string(), "b".to_string()]);
            assert_eq!(item.id, "d");
        }
        AddPlan::Update(_) => panic!("expected an insertion"),
    }
    match plan_add(make_item("d", "d", &[("t", b"d")]), &existing, 3, 0, false) {
        AddPlan::Insert { evict, .. } => assert!(evict.is_empty()),
        AddPlan::Update(_) => panic!("expected an insertion"),
    }
}

#[test]
fn oldest_unpinned_skips_pinned() {
    let mut pinned = make_item("p", "p", &[]);
    pinned.pin = Some("b".to_string());
    let items = vec![make_item("x", "x", &[]), make_item("y", "y", &[]), pinned];
    assert_eq!(oldest_unpinned(&items, 1), vec!["y".to_string()]);
    assert_eq!(oldest_unpinned(&items, 5), vec!["y".to_string(), "x".to_string()]);
    assert!(oldest_unpinned(&items, 0).is_empty());
}

#[test]
fn transient_types_are_ignored_when_comparing() {
    let stored = make_item("1", "Hello", &[("public.utf8-plain-text", b"Hello")]);
    let copy = make_item("2", "Hello", &[("public.utf8-plain-text", b"Hello"), ("com.apple.modified", b"x")]);
    let existing = vec![stored];
    assert_eq!(find_similar(&copy, &existing).map(|i| i.id.clone()), Some("1".to_string()));
}

#[test]
fn only_transient_content_is_never_similar() {
    let stored = make_item("1", "", &[("com.apple.modified", b"x")]);
    let copy = make_item("2", "", &[("com.apple.modified", b"x")]);
    assert!(find_similar(&copy, &[stored]).is_none());
}

#[test]
fn different_value_is_not_similar() {
    let stored = make_item("1", "Hello", &[("public.utf8-plain-text", b"Hello")]);
    let copy = make_item("2", "Hello!", &[("public.utf8-plain-text", b"Hello!")]);
    assert!(find_similar(&copy, &[stored]).is_none());
}

#[test]
fn first_similar_item_wins() {
    let a = make_item("a", "", &[("public.png", b"img"), ("public.utf8-plain-text", b"t")]);
    let b = make_item("b", "", &[("public.utf8-plain-text", b"t")]);
    let copy = make_item("c", "", &[("public.utf8-plain-text", b"t")]);
    let existing = vec![a, b];
    assert_eq!(find_similar(&copy, &existing).map(|i| i.id.clone()), Some("a".to_string()));
}

#[test]
fn transient_type_list() {
    assert!(is_transient_type("com.apple.modified"));
    assert!(is_transient_type("org.chromium.source-url"));
    assert!(is_transient_type("com.apple.NSItemProvider.Providers"));
    assert!(!is_transient_type("public.utf8-plain-text"));
    assert!(!is_transient_type(""));
}

#[test]
fn merge_adds_new_types_and_overwrites_values() {
    let existing = vec![
        ClipboardContent { content_type: "public.utf8-plain-text".to_string(), value: Some(b"old".to_vec()) },
        ClipboardContent { content_type: "public.png".to_string(), value: None },
    ];
    let new = vec![
        ClipboardContent { content_type: "public.html".to_string(), value: Some(b"<b>".to_vec()) },
        ClipboardContent { content_type: "public.utf8-plain-text".to_string(), value: Some(b"new".to_vec()) },
    ];
    let merged = merge_contents(&existing, &new);
    let view: Vec<(String, Option<Vec<u8>>)> = merged.iter().map(|c| (c.content_type.clone(), c.value.clone())).collect();
    assert_eq!(
        view,
        vec![
            ("public.utf8-plain-text".to_string(), Some(b"new".to_vec())),
            ("public.png".to_string(), None),
            ("public.html".to_string(), Some(b"<b>".to_vec())),
        ]
    );
}

#[test]
fn merge_duplicate_counts_copy() {
    let mut stored = make_item("1", "Hello", &[("public.utf8-plain-text", b"Hello")]);
    stored.number_of_copies = 4;
    stored.pin = Some("c".to_string());
    let mut copy = make_item("2", "Other", &[("public.utf8-plain-text", b"Hello")]);
    copy.last_copied_at = 5000;
    let merged = merge_duplicate(&stored, &copy);
    assert_eq!(merged.id, "1");
    assert_eq!(merged.title, "Hello");
    assert_eq!(merged.number_of_copies, 5);
    assert_eq!(merged.last_copied_at, 5000);
    assert_eq!(merged.first_copied_at, 1000);
    assert_eq!(merged.pin, Some("c".to_string()));
}

#[test]
fn toggle_pin_assigns_and_clears() {
    let item = make_item("1", "Hello", &[("public.utf8-plain-text", b"Hello")]);
    let pinned = toggle_pin_item(item, &["b".to_string(), "c".to_string()]);
    assert_eq!(pinned.pin, Some("b".to_string()));
    let unpinned = toggle_pin_item(pinned, &[]);
    assert!(unpinned.pin.is_none());
    let still = toggle_pin_item(unpinned, &[]);
    assert!(still.pin.is_none());
}

#[test]
fn update_text_sets_title_and_plain_text_value() {
    let item = make_item("1", "Hello", &[("public.png", b"img"), ("public.utf8-plain-text", b"Hello")]);
    let updated = update_item_text(item, "Bye \u{e9}".to_string());
    assert_eq!(updated.title, "Bye \u{e9}");
    assert_eq!(updated.contents[0].value, Some(b"img".to_vec()));
    assert_eq!(updated.contents[1].value, Some("Bye \u{e9}".as_bytes().to_vec()));
}

#[test]
fn update_text_without_plain_text_entry() {
    let item = make_item("1", "img", &[("public.png", b"img")]);
    let updated = update_item_text(item, "new".to_string());
    assert_eq!(updated.title, "new");
    assert_eq!(updated.contents.len(), 1);
    assert_eq!(updated.contents[0].value, Some(b"img".to_vec()));
}

#[test]
fn merged_item_still_repeats_the_copy() {
    let stored = make_item("1", "Hello", &[("public.utf8-plain-text", b"Hello"), ("public.png", b"img")]);
    let copy = make_item("2", "Hello", &[("public.utf8-plain-text", b"Hello"), ("public.html", b"<p>")]);
    let merged = merge_duplicate(&stored, &copy);
    assert_eq!(merged.contents.len(), 3);
    assert_eq!(merged.contents[0].content_type, "public.utf8-plain-text");
    assert_eq!(merged.contents[1].content_type, "public.png");
    assert_eq!(find_similar(&copy, &[merged]).map(|i| i.id.clone()), Some("1".to_string()));
}

#[test]
fn migrated_row_becomes_item() {
    let row = SwiftRow {
        application: Some("com.apple.Safari".to_string()),
        first_copied_at: 978_307_200_000,
        last_copied_at: 978_307_260_500,
        number_of_copies: 4_294_967_299,
        pin: Some(String::new()),
        title: "Hello".to_string(),
        sync_id: String::new(),
        sync_timestamp: 5,
        sync_source: None,
        sync_deleted: 2,
    };
    let contents = vec![ClipboardContent { content_type: "public.utf8-plain-text".to_string(), value: Some(b"Hello".to_vec()) }];
    let item = item_from_swift_row(row.clone(), contents, "fresh".to_string());
    assert_eq!(item.id, "fresh");
    assert_eq!(item.pin, None);
    assert_eq!(item.number_of_copies, 3);
    assert!(item.sync_deleted);
    assert_eq!(item.first_copied_at, 978_307_200_000);
    assert_eq!(item.contents.len(), 1);

    let mut kept = row;
    kept.sync_id = "abc".to_string();
    kept.pin = Some("b".to_string());
    kept.sync_deleted = 0;
    let item = item_from_swift_row(kept, vec![], "fresh".to_string());
    assert_eq!(item.id, "abc");
    assert_eq!(item.pin, Some("b".to_string()));
    assert!(!item.sync_deleted);
}
