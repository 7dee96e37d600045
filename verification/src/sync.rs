//! Conversion of clipboard items to and from the form in which they travel
//! between devices: RFC 3339 timestamps and base64 content values.

use vstd::prelude::*;
use base64::Engine;
use crate::model::{ClipboardContent, ClipboardItem, ContentView, ItemView, contents_view, opt_string_view};
use crate::types::{SyncItem, SyncItemContent};
use crate::text::{copy_string, copy_opt_string};

verus! {

broadcast use vstd::seq_lib::group_seq_properties;

/// Mathematical value of a [`SyncItemContent`].
pub struct SyncContentView {
    pub content_type: Seq<char>,
    pub value: Option<Seq<char>>,
}

/// Mathematical value of a [`SyncItem`].
pub struct SyncItemView {
    pub id: Seq<char>,
    pub application: Option<Seq<char>>,
    pub first_copied_at: Seq<char>,
    pub last_copied_at: Seq<char>,
    pub number_of_copies: i64,
    pub pin: Option<Seq<char>>,
    pub title: Seq<char>,
    pub contents: Seq<SyncContentView>,
    pub sync_timestamp: Seq<char>,
    pub sync_source: Seq<char>,
}

impl View for SyncItemContent {
    type V = SyncContentView;

    open spec fn view(&self) -> SyncContentView {
        SyncContentView { content_type: self.content_type@, value: opt_string_view(self.value) }
    }
}

pub open spec fn sync_contents_view(s: Seq<SyncItemContent>) -> Seq<SyncContentView> {
    s.map_values(|c: SyncItemContent| c@)
}

impl View for SyncItem {
    type V = SyncItemView;

    open spec fn view(&self) -> SyncItemView {
        SyncItemView {
            id: self.id@,
            application: opt_string_view(self.application),
            first_copied_at: self.first_copied_at@,
            last_copied_at: self.last_copied_at@,
            number_of_copies: self.number_of_copies,
            pin: opt_string_view(self.pin),
            title: self.title@,
            contents: sync_contents_view(self.contents@),
            sync_timestamp: self.sync_timestamp@,
            sync_source: self.sync_source@,
        }
    }
}

/// The RFC 3339 text of a Unix time in milliseconds
/// (`DateTime::from_timestamp_millis(ms).map(|dt| dt.to_rfc3339())`), or the
/// empty text when the time is out of range.
pub uninterp spec fn rfc3339_of_millis(millis: i64) -> Seq<char>;

/// The Unix time in milliseconds of an RFC 3339 text
/// (`DateTime::parse_from_rfc3339(s).map(|dt| dt.timestamp_millis())`).
pub uninterp spec fn millis_of_rfc3339(text: Seq<char>) -> Option<i64>;

/// What the standard base64 engine decodes a text to (`STANDARD.decode`).
pub uninterp spec fn base64_decoded(text: Seq<char>) -> Option<Seq<u8>>;

/// The Unix times in milliseconds of the years 0000 to 9999, which RFC 3339
/// text written by `chrono` holds with four year digits.
pub open spec fn in_rfc3339_range(millis: i64) -> bool {
    -62_167_219_200_000 <= millis <= 253_402_300_799_999
}

/// `chrono`: formats a timestamp as [`rfc3339_of_millis`] states. A time of
/// the years 0000 to 9999 is written with four year digits, a UTC offset and
/// only the fractional digits it needs, so that parsing the text gives the
/// time back.
#[verifier::external_body]
fn format_rfc3339(millis: i64) -> (s: String)
    ensures
        s@ == rfc3339_of_millis(millis),
        in_rfc3339_range(millis) ==> millis_of_rfc3339(s@) == Some(millis),
{
    chrono::DateTime::from_timestamp_millis(millis).map(|dt| dt.to_rfc3339()).unwrap_or_default()
}

/// `chrono`: parses a timestamp as [`millis_of_rfc3339`] states.
#[verifier::external_body]
fn parse_rfc3339(s: &str) -> (r: Option<i64>)
    ensures
        r == millis_of_rfc3339(s@),
{
    chrono::DateTime::parse_from_rfc3339(s).map(|dt| dt.timestamp_millis()).ok()
}

/// The standard base64 alphabet.
pub open spec fn b64_char(n: int) -> char {
    if n < 26 {
        (n + 65) as char
    } else if n < 52 {
        (n + 71) as char
    } else if n < 62 {
        (n - 4) as char
    } else if n == 62 {
        '+'
    } else {
        '/'
    }
}

/// Standard base64 with padding: each group of three bytes becomes four
/// characters; a final group of one or two bytes is padded with `=`.
pub open spec fn base64_encoded(b: Seq<u8>) -> Seq<char>
    decreases b.len(),
{
    if b.len() == 0 {
        Seq::empty()
    } else if b.len() == 1 {
        seq![b64_char(b[0] as int / 4), b64_char((b[0] as int % 4) * 16), '=', '=']
    } else if b.len() == 2 {
        seq![
            b64_char(b[0] as int / 4),
            b64_char((b[0] as int % 4) * 16 + b[1] as int / 16),
            b64_char((b[1] as int % 16) * 4),
            '=',
        ]
    } else {
        seq![
            b64_char(b[0] as int / 4),
            b64_char((b[0] as int % 4) * 16 + b[1] as int / 16),
            b64_char((b[1] as int % 16) * 4 + b[2] as int / 64),
            b64_char(b[2] as int % 64),
        ] + base64_encoded(b.skip(3))
    }
}

/// `base64::engine::general_purpose::STANDARD.encode`: the result is the
/// padded encoding, which the same engine decodes back to the bytes.
#[verifier::external_body]
fn base64_encode(bytes: &[u8]) -> (s: String)
    ensures
        s@ == base64_encoded(bytes@),
        base64_decoded(s@) == Some(bytes@),
{
    base64::engine::general_purpose::STANDARD.encode(bytes)
}

/// `base64::engine::general_purpose::STANDARD.decode`: the result is
/// [`base64_decoded`] of the text.
#[verifier::external_body]
fn base64_decode(s: &str) -> (r: Option<Vec<u8>>)
    ensures
        match r {
            Some(v) => base64_decoded(s@) == Some(v@),
            None => base64_decoded(s@) is None,
        },
{
    base64::engine::general_purpose::STANDARD.decode(s).ok()
}

/// The wire form of a content entry.
pub open spec fn sync_content_of(c: ContentView) -> SyncContentView {
    SyncContentView {
        content_type: c.content_type,
        value: match c.value {
            Some(v) => Some(base64_encoded(v)),
            None => None,
        },
    }
}

/// The wire form of an item.
pub open spec fn sync_item_of(item: ItemView) -> SyncItemView {
    SyncItemView {
        id: item.id,
        application: item.application,
        first_copied_at: rfc3339_of_millis(item.first_copied_at),
        last_copied_at: rfc3339_of_millis(item.last_copied_at),
        number_of_copies: item.number_of_copies as i64,
        pin: item.pin,
        title: item.title,
        contents: item.contents.map_values(|c: ContentView| sync_content_of(c)),
        sync_timestamp: rfc3339_of_millis(item.sync_timestamp),
        sync_source: match item.sync_source {
            Some(s) => s,
            None => Seq::empty(),
        },
    }
}

/// The millisecond time of a wire timestamp, 0 when it does not parse.
pub open spec fn millis_or_zero(text: Seq<char>) -> i64 {
    match millis_of_rfc3339(text) {
        Some(ms) => ms,
        None => 0,
    }
}

/// The content entry of a wire content entry; a value that does not decode
/// becomes empty.
pub open spec fn content_of_sync(c: SyncContentView) -> ContentView {
    ContentView {
        content_type: c.content_type,
        value: match c.value {
            Some(t) => Some(
                match base64_decoded(t) {
                    Some(b) => b,
                    None => Seq::empty(),
                },
            ),
            None => None,
        },
    }
}

/// The item of a wire item: unparsable timestamps become 0, the copy count
/// is truncated to 32 bits, an empty source means none, and the item is not
/// marked deleted.
pub open spec fn item_of_sync(s: SyncItemView) -> ItemView {
    ItemView {
        id: s.id,
        application: s.application,
        first_copied_at: millis_or_zero(s.first_copied_at),
        last_copied_at: millis_or_zero(s.last_copied_at),
        number_of_copies: s.number_of_copies as i32,
        pin: s.pin,
        title: s.title,
        contents: s.contents.map_values(|c: SyncContentView| content_of_sync(c)),
        sync_timestamp: millis_or_zero(s.sync_timestamp),
        sync_source: if s.sync_source.len() == 0 { None } else { Some(s.sync_source) },
        sync_deleted: false,
    }
}

/// The wire form of `item` reads back: each entry value decodes to itself,
/// and each timestamp of the years 0000 to 9999 parses to itself.
pub open spec fn wire_decodes(item: ItemView) -> bool {
    &&& forall|i: int| 0 <= i < item.contents.len() ==> (#[trigger] item.contents[i].value matches Some(v)
        ==> base64_decoded(base64_encoded(v)) == Some(v))
    &&& in_rfc3339_range(item.first_copied_at) ==> millis_of_rfc3339(rfc3339_of_millis(item.first_copied_at)) == Some(item.first_copied_at)
    &&& in_rfc3339_range(item.last_copied_at) ==> millis_of_rfc3339(rfc3339_of_millis(item.last_copied_at)) == Some(item.last_copied_at)
    &&& in_rfc3339_range(item.sync_timestamp) ==> millis_of_rfc3339(rfc3339_of_millis(item.sync_timestamp)) == Some(item.sync_timestamp)
}

/// The wire form of a clipboard item.
pub fn to_sync_item(item: &ClipboardItem) -> (s: SyncItem)
    ensures
        s@ == sync_item_of(item@),
        wire_decodes(item@),
{
    let mut contents: Vec<SyncItemContent> = Vec::new();
    let mut i: usize = 0;
    let ghost cv = contents_view(item.contents@);
    while i < item.contents.len()
        invariant
            cv == contents_view(item.contents@),
            i <= item.contents@.len(),
            contents@.len() == i,
            forall|j: int| 0 <= j < i ==> #[trigger] contents@[j]@ == sync_content_of(cv[j]),
            forall|j: int| 0 <= j < i ==> (#[trigger] cv[j].value matches Some(v)
                ==> base64_decoded(base64_encoded(v)) == Some(v)),
        decreases item.contents@.len() - i,
    {
        let c = &item.contents[i];
        let value = match &c.value {
            Some(v) => Some(base64_encode(v.as_slice())),
            None => None,
        };
        contents.push(SyncItemContent { content_type: copy_string(&c.content_type), value });
        i = i + 1;
    }
    let source = match &item.sync_source {
        Some(s) => copy_string(s),
        None => String::new(),
    };
    let s = SyncItem {
        id: copy_string(&item.id),
        application: copy_opt_string(&item.application),
        first_copied_at: format_rfc3339(item.first_copied_at),
        last_copied_at: format_rfc3339(item.last_copied_at),
        number_of_copies: item.number_of_copies as i64,
        pin: copy_opt_string(&item.pin),
        title: copy_string(&item.title),
        contents,
        sync_timestamp: format_rfc3339(item.sync_timestamp),
        sync_source: source,
    };
    assert(s@.contents =~= sync_item_of(item@).contents);
    s
}

fn parse_or_zero(s: &str) -> (ms: i64)
    ensures
        ms == millis_or_zero(s@),
{
    match parse_rfc3339(s) {
        Some(ms) => ms,
        None => 0,
    }
}

/// The clipboard item of a wire item (see [`item_of_sync`]).
pub fn from_sync_item(s: SyncItem) -> (item: ClipboardItem)
    ensures
        item@ == item_of_sync(s@),
{
    let mut contents: Vec<ClipboardContent> = Vec::new();
    let mut i: usize = 0;
    let ghost sv = sync_contents_view(s.contents@);
    while i < s.contents.len()
        invariant
            sv == sync_contents_view(s.contents@),
            i <= s.contents@.len(),
            contents@.len() == i,
            forall|j: int| 0 <= j < i ==> #[trigger] contents@[j]@ == content_of_sync(sv[j]),
        decreases s.contents@.len() - i,
    {
        let c = &s.contents[i];
        let value = match &c.value {
            Some(t) => match base64_decode(t.as_str()) {
                Some(b) => Some(b),
                None => Some(Vec::new()),
            },
            None => None,
        };
        contents.push(ClipboardContent { content_type: copy_string(&c.content_type), value });
        i = i + 1;
    }
    let first = parse_or_zero(s.first_copied_at.as_str());
    let last = parse_or_zero(s.last_copied_at.as_str());
    let ts = parse_or_zero(s.sync_timestamp.as_str());
    let source = if s.sync_source.as_str().is_empty() { None } else { Some(s.sync_source) };
    let item = ClipboardItem {
        id: s.id,
        application: s.application,
        first_copied_at: first,
        last_copied_at: last,
        number_of_copies: s.number_of_copies as i32,
        pin: s.pin,
        title: s.title,
        contents,
        sync_timestamp: ts,
        sync_source: source,
        sync_deleted: false,
    };
    assert(item@.contents =~= item_of_sync(s@).contents);
    item
}

/// What a round trip through the wire form keeps of an item: its id,
/// application, copy count, pin, title, the types of its entries, and a
/// non-empty sync source; the item arrives not marked deleted.
pub proof fn law_sync_keeps_identity(item: ItemView)
    ensures
        ({
            let back = item_of_sync(sync_item_of(item));
            &&& back.id == item.id
            &&& back.application == item.application
            &&& back.number_of_copies == item.number_of_copies
            &&& back.pin == item.pin
            &&& back.title == item.title
            &&& back.contents.len() == item.contents.len()
            &&& forall|i: int| 0 <= i < item.contents.len() ==> #[trigger] back.contents[i].content_type == item.contents[i].content_type
            &&& forall|i: int| 0 <= i < item.contents.len() ==> (back.contents[i].value is None <==> #[trigger] item.contents[i].value is None)
            &&& (item.sync_source matches Some(s) && s.len() > 0) ==> back.sync_source == item.sync_source
            &&& item.sync_source is None ==> back.sync_source is None
            &&& !back.sync_deleted
        }),
{
    let back = item_of_sync(sync_item_of(item));
    assert forall|i: int| 0 <= i < item.contents.len() implies #[trigger] back.contents[i].content_type == item.contents[i].content_type by {
        assert(back.contents[i] == content_of_sync(sync_content_of(item.contents[i])));
    }
    assert forall|i: int| 0 <= i < item.contents.len() implies (back.contents[i].value is None <==> #[trigger] item.contents[i].value is None) by {
        assert(back.contents[i] == content_of_sync(sync_content_of(item.contents[i])));
    }
}

/// A round trip through the wire form gives the item back: an item that is
/// not marked deleted, whose sync source is not the empty text and whose
/// timestamps fall in the years 0000 to 9999 arrives as it was sent, when its
/// wire form reads back (as [`to_sync_item`] states).
pub proof fn law_sync_round_trip(item: ItemView)
    requires
        wire_decodes(item),
        !item.sync_deleted,
        item.sync_source != Some(Seq::<char>::empty()),
        in_rfc3339_range(item.first_copied_at),
        in_rfc3339_range(item.last_copied_at),
        in_rfc3339_range(item.sync_timestamp),
    ensures
        item_of_sync(sync_item_of(item)) == item,
{
    let back = item_of_sync(sync_item_of(item));
    assert forall|i: int| 0 <= i < item.contents.len() implies #[trigger] back.contents[i] == item.contents[i] by {
        assert(back.contents[i] == content_of_sync(sync_content_of(item.contents[i])));
        assert(item.contents[i].value matches Some(v) ==> base64_decoded(base64_encoded(v)) == Some(v));
    }
    assert(back.contents =~= item.contents);
    match item.sync_source {
        Some(src) => { assert(src.len() > 0); },
        None => {},
    }
}

} // verus!
