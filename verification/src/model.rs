//! The clipboard history data model.

use vstd::prelude::*;
use crate::text::{copy_string, copy_opt_string, copy_opt_bytes};

verus! {

/// A single content entry within a clipboard item (text, image data, a file URL, ...).
#[derive(Clone, Debug)]
pub struct ClipboardContent {
    /// Uniform type identifier such as "public.utf8-plain-text" or "public.png".
    pub content_type: String,
    /// Raw bytes of the content value.
    pub value: Option<Vec<u8>>,
}

/// A clipboard history item, the central domain model.
#[derive(Clone, Debug)]
pub struct ClipboardItem {
    pub id: String,
    pub application: Option<String>,
    /// Unix epoch milliseconds.
    pub first_copied_at: i64,
    /// Unix epoch milliseconds.
    pub last_copied_at: i64,
    pub number_of_copies: i32,
    /// Pin key character (such as "b"), or `None` when the item is not pinned.
    pub pin: Option<String>,
    pub title: String,
    pub contents: Vec<ClipboardContent>,
    /// Unix epoch milliseconds.
    pub sync_timestamp: i64,
    pub sync_source: Option<String>,
    pub sync_deleted: bool,
}

/// Mathematical value of a [`ClipboardContent`].
pub struct ContentView {
    pub content_type: Seq<char>,
    pub value: Option<Seq<u8>>,
}

/// Mathematical value of a [`ClipboardItem`].
pub struct ItemView {
    pub id: Seq<char>,
    pub application: Option<Seq<char>>,
    pub first_copied_at: i64,
    pub last_copied_at: i64,
    pub number_of_copies: i32,
    pub pin: Option<Seq<char>>,
    pub title: Seq<char>,
    pub contents: Seq<ContentView>,
    pub sync_timestamp: i64,
    pub sync_source: Option<Seq<char>>,
    pub sync_deleted: bool,
}

/// The text of an optional string.
pub open spec fn opt_string_view(s: Option<String>) -> Option<Seq<char>> {
    match s {
        Some(x) => Some(x@),
        None => None,
    }
}

/// The bytes of an optional byte vector.
pub open spec fn opt_bytes_view(v: Option<Vec<u8>>) -> Option<Seq<u8>> {
    match v {
        Some(x) => Some(x@),
        None => None,
    }
}

impl View for ClipboardContent {
    type V = ContentView;

    open spec fn view(&self) -> ContentView {
        ContentView { content_type: self.content_type@, value: opt_bytes_view(self.value) }
    }
}

/// The values of a list of content entries.
pub open spec fn contents_view(s: Seq<ClipboardContent>) -> Seq<ContentView> {
    s.map_values(|c: ClipboardContent| c@)
}

impl View for ClipboardItem {
    type V = ItemView;

    open spec fn view(&self) -> ItemView {
        ItemView {
            id: self.id@,
            application: opt_string_view(self.application),
            first_copied_at: self.first_copied_at,
            last_copied_at: self.last_copied_at,
            number_of_copies: self.number_of_copies,
            pin: opt_string_view(self.pin),
            title: self.title@,
            contents: contents_view(self.contents@),
            sync_timestamp: self.sync_timestamp,
            sync_source: opt_string_view(self.sync_source),
            sync_deleted: self.sync_deleted,
        }
    }
}

/// The values of a list of items.
pub open spec fn items_view(s: Seq<ClipboardItem>) -> Seq<ItemView> {
    s.map_values(|it: ClipboardItem| it@)
}

impl ClipboardContent {
    /// A copy of this content entry.
    pub fn duplicate(&self) -> (r: ClipboardContent)
        ensures
            r@ == self@,
    {
        ClipboardContent {
            content_type: copy_string(&self.content_type),
            value: copy_opt_bytes(&self.value),
        }
    }
}

/// A copy of a list of content entries.
pub fn copy_contents(v: &Vec<ClipboardContent>) -> (r: Vec<ClipboardContent>)
    ensures
        contents_view(r@) == contents_view(v@),
{
    let mut r: Vec<ClipboardContent> = Vec::new();
    let mut i: usize = 0;
    while i < v.len()
        invariant
            i <= v@.len(),
            r@.len() == i,
            forall|j: int| 0 <= j < i ==> r@[j]@ == v@[j]@,
        decreases v@.len() - i,
    {
        r.push(v[i].duplicate());
        i = i + 1;
    }
    assert(contents_view(r@) =~= contents_view(v@));
    r
}

impl ClipboardItem {
    /// A copy of this item.
    pub fn duplicate(&self) -> (r: ClipboardItem)
        ensures
            r@ == self@,
    {
        ClipboardItem {
            id: copy_string(&self.id),
            application: copy_opt_string(&self.application),
            first_copied_at: self.first_copied_at,
            last_copied_at: self.last_copied_at,
            number_of_copies: self.number_of_copies,
            pin: copy_opt_string(&self.pin),
            title: copy_string(&self.title),
            contents: copy_contents(&self.contents),
            sync_timestamp: self.sync_timestamp,
            sync_source: copy_opt_string(&self.sync_source),
            sync_deleted: self.sync_deleted,
        }
    }
}

/// A character range `[start, end)` of a title that a query matched.
#[derive(Clone, Debug)]
pub struct MatchRange {
    pub start: i64,
    pub end: i64,
}

impl View for MatchRange {
    type V = (i64, i64);

    open spec fn view(&self) -> (i64, i64) {
        (self.start, self.end)
    }
}

/// The values of a list of ranges.
pub open spec fn ranges_view(s: Seq<MatchRange>) -> Seq<(i64, i64)> {
    s.map_values(|r: MatchRange| r@)
}

/// Result of a search: the item, its fuzzy match score (lower is better;
/// `None` for exact and regular-expression matches) and the character ranges
/// of the title that match the query.
#[derive(Clone, Debug)]
pub struct SearchResult {
    pub item: ClipboardItem,
    pub score: Option<i64>,
    pub ranges: Vec<MatchRange>,
}

/// Mathematical value of a [`SearchResult`].
pub struct SearchResultView {
    pub item: ItemView,
    pub score: Option<i64>,
    pub ranges: Seq<(i64, i64)>,
}

impl View for SearchResult {
    type V = SearchResultView;

    open spec fn view(&self) -> SearchResultView {
        SearchResultView { item: self.item@, score: self.score, ranges: ranges_view(self.ranges@) }
    }
}

/// The values of a list of search results.
pub open spec fn results_view(s: Seq<SearchResult>) -> Seq<SearchResultView> {
    s.map_values(|r: SearchResult| r@)
}

/// How a query is matched against titles.
#[derive(Clone, Debug)]
pub enum SearchMode {
    Exact,
    Fuzzy,
    Regexp,
    Mixed,
}

/// The key that items are sorted by, largest first.
#[derive(Clone, Debug)]
pub enum SortBy {
    LastCopiedAt,
    FirstCopiedAt,
    NumberOfCopies,
}

/// Errors of the history core.
#[derive(Clone, Debug)]
pub enum CoreError {
    Storage { message: String },
    NotFound { id: String },
    InvalidArg { message: String },
    Sync { message: String },
}

} // verus!
