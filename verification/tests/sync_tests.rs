use maccy::model::{ClipboardContent, ClipboardItem};
use maccy::sync::{from_sync_item, to_sync_item};
use maccy::types::{SyncItem, SyncItemContent};

fn sample() -> ClipboardItem {
    ClipboardItem {
        id: "id-1".to_string(),
        application: Some("com.apple.TextEdit".to_string()),
        first_copied_at: 0,
        last_copied_at: 947638923004,
        number_of_copies: 3,
        pin: Some("b".to_string()),
        title: "Hello".to_string(),
        contents: vec![
            ClipboardContent { content_type: "public.utf8-plain-text".to_string(), value: Some(b"Hello".to_vec()) },
            ClipboardContent { content_type: "public.png".to_string(), value: None },
        ],
        sync_timestamp: 1_700_000_000_123,
        sync_source: Some("device-a".to_string()),
        sync_deleted: false,
    }
}

#[test]
fn wire_form_of_an_item() {
    let s = to_sync_item(&sample());
    assert_eq!(s.id, "id-1");
    assert_eq!(s.first_copied_at, "1970-01-01T00:00:00+00:00");
    assert_eq!(s.last_copied_at, "2000-01-12T01:02:03.004+00:00");
    assert_eq!(s.number_of_copies, 3);
    assert_eq!(s.contents[0].value, Some("SGVsbG8=".to_string()));
    assert_eq!(s.contents[1].value, None);
    assert_eq!(s.sync_source, "device-a");
}

#[test]
fn round_trip_gives_the_item_back() {
    let item = sample();
    let back = from_sync_item(to_sync_item(&item));
    assert_eq!(back.id, item.id);
    assert_eq!(back.application, item.application);
    assert_eq!(back.first_copied_at, item.first_copied_at);
    assert_eq!(back.last_copied_at, item.last_copied_at);
    assert_eq!(back.number_of_copies, item.number_of_copies);
    assert_eq!(back.pin, item.pin);
    assert_eq!(back.title, item.title);
    assert_eq!(back.contents.len(), 2);
    assert_eq!(back.contents[0].value, Some(b"Hello".to_vec()));
    assert_eq!(back.contents[1].value, None);
    assert_eq!(back.sync_timestamp, item.sync_timestamp);
    assert_eq!(back.sync_source, item.sync_source);
    assert!(!back.sync_deleted);
}

#[test]
fn missing_source_travels_as_empty_text() {
    let mut item = sample();
    item.sync_source = None;
    item.sync_deleted = true;
    let s = to_sync_item(&item);
    assert_eq!(s.sync_source, "");
    let back = from_sync_item(s);
    assert!(back.sync_source.is_none());
    assert!(!back.sync_deleted);
}

#[test]
fn malformed_wire_values_fall_back() {
    let s = SyncItem {
        id: "x".to_string(),
        application: None,
        first_copied_at: "yesterday".to_string(),
        last_copied_at: "".to_string(),
        number_of_copies: 4_294_967_297,
        pin: None,
        title: "t".to_string(),
        contents: vec![SyncItemContent { content_type: "public.utf8-plain-text".to_string(), value: Some("!!!".to_string()) }],
        sync_timestamp: "2024-01-01T00:00:00Z".to_string(),
        sync_source: "".to_string(),
    };
    let item = from_sync_item(s);
    assert_eq!(item.first_copied_at, 0);
    assert_eq!(item.last_copied_at, 0);
    assert_eq!(item.number_of_copies, 1);
    assert_eq!(item.contents[0].value, Some(vec![]));
    assert_eq!(item.sync_timestamp, 1_704_067_200_000);
    assert!(item.sync_source.is_none());
}
