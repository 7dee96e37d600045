//! The rules of the clipboard history: de-duplication of new items, merging
//! of a duplicate into the item it repeats, the size limit, pinning and text
//! edits. Storage carries out the plans that these functions compute.

use vstd::prelude::*;
use crate::model::{ClipboardContent, ClipboardItem, ContentView, ItemView, contents_view, items_view, opt_string_view};
use crate::text::{str_equal, copy_string};
use crate::types::strings_view;

verus! {

broadcast use vstd::seq_lib::group_seq_properties;

/// Content types that a pasteboard adds on its own and that do not make two
/// copies different.
pub open spec fn transient_types() -> Seq<Seq<char>> {
    seq![
        "com.apple.modified"@,
        "com.maccy.from-maccy"@,
        "com.apple.linkpresentation.metadata"@,
        "com.apple.custom-webkit-pasteboard-data"@,
        "com.apple.pasteboard.promised-file-url"@,
        "org.chromium.source-url"@,
        "org.chromium.source-web-custom-data"@,
        "com.apple.NSItemProvider.Providers"@,
    ]
}

/// The content type of plain text.
pub open spec fn plain_text_type() -> Seq<char> {
    "public.utf8-plain-text"@
}

/// Whether a content type is one of [`transient_types`].
pub fn is_transient_type(t: &str) -> (r: bool)
    ensures
        r == transient_types().contains(t@),
{
    let ghost ts = transient_types();
    let r = str_equal(t, "com.apple.modified")
        || str_equal(t, "com.maccy.from-maccy")
        || str_equal(t, "com.apple.linkpresentation.metadata")
        || str_equal(t, "com.apple.custom-webkit-pasteboard-data")
        || str_equal(t, "com.apple.pasteboard.promised-file-url")
        || str_equal(t, "org.chromium.source-url")
        || str_equal(t, "org.chromium.source-web-custom-data")
        || str_equal(t, "com.apple.NSItemProvider.Providers");
    proof {
        if r {
            if t@ == ts[0] { assert(ts.contains(t@)); }
            else if t@ == ts[1] { assert(ts.contains(t@)); }
            else if t@ == ts[2] { assert(ts.contains(t@)); }
            else if t@ == ts[3] { assert(ts.contains(t@)); }
            else if t@ == ts[4] { assert(ts.contains(t@)); }
            else if t@ == ts[5] { assert(ts.contains(t@)); }
            else if t@ == ts[6] { assert(ts.contains(t@)); }
            else { assert(ts.contains(t@)); }
        } else {
            assert(!ts.contains(t@));
        }
    }
    r
}

/// A content entry that counts when comparing items.
pub open spec fn is_significant(c: ContentView) -> bool {
    !transient_types().contains(c.content_type)
}

/// `ex` holds an entry of the same type and value as `c`.
pub open spec fn has_matching_content(ex: Seq<ContentView>, c: ContentView) -> bool {
    exists|j: int| 0 <= j < ex.len() && ex[j].content_type == c.content_type && ex[j].value == c.value
}

/// `existing` already holds what `new_item` holds: the new item has at least
/// one significant entry, and each significant entry of it is matched in
/// type and value by an entry of `existing`.
pub open spec fn is_similar(new_item: ItemView, existing: ItemView) -> bool {
    &&& exists|i: int| 0 <= i < new_item.contents.len() && is_significant(new_item.contents[i])
    &&& forall|i: int| 0 <= i < new_item.contents.len() && is_significant(new_item.contents[i])
        ==> has_matching_content(existing.contents, #[trigger] new_item.contents[i])
}

/// The index of the first item of `existing` that `new_item` repeats.
pub open spec fn first_similar(new_item: ItemView, existing: Seq<ItemView>) -> Option<int> {
    if exists|i: int| 0 <= i < existing.len() && is_similar(new_item, #[trigger] existing[i]) {
        Some(choose|i: int| 0 <= i < existing.len() && is_similar(new_item, existing[i])
            && forall|j: int| 0 <= j < i ==> !is_similar(new_item, #[trigger] existing[j]))
    } else {
        None
    }
}

fn content_matches(ex: &Vec<ClipboardContent>, c: &ClipboardContent) -> (r: bool)
    ensures
        r == has_matching_content(contents_view(ex@), c@),
{
    let mut j: usize = 0;
    while j < ex.len()
        invariant
            j <= ex@.len(),
            forall|k: int| 0 <= k < j ==> !(ex@[k]@.content_type == c@.content_type && ex@[k]@.value == c@.value),
        decreases ex@.len() - j,
    {
        let same_type = ex[j].content_type == c.content_type;
        let same_value = match (&ex[j].value, &c.value) {
            (Some(a), Some(b)) => crate::text::bytes_equal(a.as_slice(), b.as_slice()),
            (None, None) => true,
            _ => false,
        };
        if same_type && same_value {
            assert(contents_view(ex@)[j as int] == ex@[j as int]@);
            return true;
        }
        j = j + 1;
    }
    proof {
        let exv = contents_view(ex@);
        if has_matching_content(exv, c@) {
            let k = choose|k: int| 0 <= k < exv.len() && exv[k].content_type == c@.content_type && exv[k].value == c@.value;
            assert(exv[k] == ex@[k]@);
        }
    }
    false
}

fn item_is_similar(new_item: &ClipboardItem, existing: &ClipboardItem) -> (r: bool)
    ensures
        r == is_similar(new_item@, existing@),
{
    let ghost nv = new_item@;
    let mut any_significant = false;
    let mut i: usize = 0;
    while i < new_item.contents.len()
        invariant
            nv == new_item@,
            i <= new_item.contents@.len(),
            any_significant == exists|k: int| 0 <= k < i && is_significant(#[trigger] nv.contents[k]),
            forall|k: int| 0 <= k < i && is_significant(nv.contents[k])
                ==> has_matching_content(existing@.contents, #[trigger] nv.contents[k]),
        decreases new_item.contents@.len() - i,
    {
        let c = &new_item.contents[i];
        assert(nv.contents[i as int] == c@);
        if !is_transient_type(c.content_type.as_str()) {
            any_significant = true;
            if !content_matches(&existing.contents, c) {
                return false;
            }
        }
        i = i + 1;
    }
    any_significant
}

/// Find an existing item that the new one repeats (de-duplication): the first
/// item of `existing` whose entries include every significant entry of
/// `new_item`, in type and value.
pub fn find_similar<'a>(new_item: &ClipboardItem, existing: &'a [ClipboardItem]) -> (r: Option<&'a ClipboardItem>)
    ensures
        match first_similar(new_item@, items_view(existing@)) {
            Some(i) => r == Some(&existing@[i]),
            None => r is None,
        },
        first_similar(new_item@, items_view(existing@)) matches Some(i) ==> {
            &&& 0 <= i < existing@.len()
            &&& is_similar(new_item@, existing@[i]@)
            &&& forall|j: int| 0 <= j < i ==> !is_similar(new_item@, #[trigger] existing@[j]@)
        },
{
    let ghost ev = items_view(existing@);
    let mut i: usize = 0;
    while i < existing.len()
        invariant
            ev == items_view(existing@),
            i <= existing@.len(),
            forall|j: int| 0 <= j < i ==> !is_similar(new_item@, #[trigger] ev[j]),
        decreases existing@.len() - i,
    {
        if item_is_similar(new_item, &existing[i]) {
            assert(is_similar(new_item@, ev[i as int]));
            let ghost fs = first_similar(new_item@, ev);
            proof {
                let c = choose|c: int| 0 <= c < ev.len() && is_similar(new_item@, ev[c])
                    && forall|j: int| 0 <= j < c ==> !is_similar(new_item@, #[trigger] ev[j]);
                assert(c == i) by {
                    if c < i { assert(!is_similar(new_item@, ev[c])); }
                    if c > i { assert(!is_similar(new_item@, ev[i as int])); }
                }
                assert forall|j: int| 0 <= j < i implies !is_similar(new_item@, #[trigger] existing@[j]@) by {
                    assert(ev[j] == existing@[j]@);
                }
            }
            return Some(&existing[i]);
        }
        i = i + 1;
    }
    None
}


/// `s` holds an entry of type `t`.
pub open spec fn has_type(s: Seq<ContentView>, t: Seq<char>) -> bool {
    exists|j: int| 0 <= j < s.len() && s[j].content_type == t
}

/// The index of the first entry of type `t` in `s`, or `s.len()` when there is none.
pub open spec fn first_of_type(s: Seq<ContentView>, t: Seq<char>) -> int
    decreases s.len(),
{
    if s.len() == 0 {
        0
    } else if s[0].content_type == t {
        0
    } else {
        1 + first_of_type(s.drop_first(), t)
    }
}

/// `base` followed, in order, by each entry of `new` whose type is not yet present.
pub open spec fn add_new_types(base: Seq<ContentView>, new: Seq<ContentView>) -> Seq<ContentView>
    decreases new.len(),
{
    if new.len() == 0 {
        base
    } else {
        let b = add_new_types(base, new.drop_last());
        if has_type(b, new.last().content_type) {
            b
        } else {
            b.push(new.last())
        }
    }
}

/// `base` where, for each entry of `new` in order, the first entry of the same
/// type takes its value.
pub open spec fn overwrite_values(base: Seq<ContentView>, new: Seq<ContentView>) -> Seq<ContentView>
    decreases new.len(),
{
    if new.len() == 0 {
        base
    } else {
        let b = overwrite_values(base, new.drop_last());
        let k = first_of_type(b, new.last().content_type);
        if k < b.len() {
            b.update(k, ContentView { content_type: b[k].content_type, value: new.last().value })
        } else {
            b
        }
    }
}

/// The entries of an item after a copy of `new` was merged into it.
pub open spec fn merged_contents(existing: Seq<ContentView>, new: Seq<ContentView>) -> Seq<ContentView> {
    overwrite_values(add_new_types(existing, new), new)
}

/// The repeated item after a new copy of it: copied once more, last copied
/// when the new copy was, with the new copy's entries merged in.
pub open spec fn merge_duplicate_spec(existing: ItemView, new_item: ItemView) -> ItemView {
    ItemView {
        last_copied_at: new_item.last_copied_at,
        number_of_copies: (existing.number_of_copies + 1) as i32,
        contents: merged_contents(existing.contents, new_item.contents),
        ..existing
    }
}

proof fn lemma_first_of_type(s: Seq<ContentView>, t: Seq<char>, k: int)
    requires
        0 <= k <= s.len(),
        forall|j: int| 0 <= j < k ==> s[j].content_type != t,
        k < s.len() ==> s[k].content_type == t,
    ensures
        first_of_type(s, t) == k,
    decreases s.len(),
{
    if s.len() > 0 && k > 0 {
        lemma_first_of_type(s.drop_first(), t, k - 1);
    }
}

proof fn lemma_first_of_type_bound(s: Seq<ContentView>, t: Seq<char>)
    ensures
        0 <= first_of_type(s, t) <= s.len(),
        first_of_type(s, t) < s.len() <==> has_type(s, t),
        first_of_type(s, t) < s.len() ==> s[first_of_type(s, t)].content_type == t,
    decreases s.len(),
{
    if s.len() > 0 && s[0].content_type != t {
        lemma_first_of_type_bound(s.drop_first(), t);
        if has_type(s, t) {
            let j = choose|j: int| 0 <= j < s.len() && s[j].content_type == t;
            assert(s.drop_first()[j - 1].content_type == t);
        }
        if has_type(s.drop_first(), t) {
            let j = choose|j: int| 0 <= j < s.len() - 1 && s.drop_first()[j].content_type == t;
            assert(s[j + 1].content_type == t);
        }
    }
}

fn index_of_type(s: &Vec<ClipboardContent>, t: &String) -> (k: usize)
    ensures
        k as int == first_of_type(contents_view(s@), t@),
        k <= s@.len(),
{
    let ghost sv = contents_view(s@);
    let mut k: usize = 0;
    while k < s.len()
        invariant
            sv == contents_view(s@),
            k <= s@.len(),
            forall|j: int| 0 <= j < k ==> sv[j].content_type != t@,
        decreases s@.len() - k,
    {
        if s[k].content_type == *t {
            proof { lemma_first_of_type(sv, t@, k as int); }
            return k;
        }
        k = k + 1;
    }
    proof { lemma_first_of_type(sv, t@, k as int); }
    k
}

/// Merge the entries of a new copy into the entries of the item it repeats:
/// entries of types not yet present are appended, and then each new entry's
/// value replaces the value of the first entry of its type.
pub fn merge_contents(existing: &Vec<ClipboardContent>, new: &Vec<ClipboardContent>) -> (r: Vec<ClipboardContent>)
    ensures
        contents_view(r@) == merged_contents(contents_view(existing@), contents_view(new@)),
{
    let ghost base = contents_view(existing@);
    let ghost nv = contents_view(new@);
    let mut out = crate::model::copy_contents(existing);
    let mut i: usize = 0;
    assert(nv.take(0) =~= Seq::<ContentView>::empty());
    while i < new.len()
        invariant
            nv == contents_view(new@),
            i <= new@.len(),
            contents_view(out@) == add_new_types(base, nv.take(i as int)),
        decreases new@.len() - i,
    {
        let c = &new[i];
        let k = index_of_type(&out, &c.content_type);
        proof {
            lemma_first_of_type_bound(contents_view(out@), c.content_type@);
            assert(nv.take(i + 1).drop_last() =~= nv.take(i as int));
            assert(nv.take(i + 1).last() == c@);
        }
        if k == out.len() {
            out.push(c.duplicate());
            assert(contents_view(out@) =~= add_new_types(base, nv.take(i + 1)));
        }
        i = i + 1;
    }
    assert(nv.take(new@.len() as int) =~= nv);
    let ghost added = contents_view(out@);
    let mut i: usize = 0;
    assert(nv.take(0) =~= Seq::<ContentView>::empty());
    while i < new.len()
        invariant
            nv == contents_view(new@),
            i <= new@.len(),
            contents_view(out@) == overwrite_values(added, nv.take(i as int)),
        decreases new@.len() - i,
    {
        let c = &new[i];
        let k = index_of_type(&out, &c.content_type);
        proof {
            assert(nv.take(i + 1).drop_last() =~= nv.take(i as int));
            assert(nv.take(i + 1).last() == c@);
        }
        if k < out.len() {
            let ghost before = contents_view(out@);
            let entry = ClipboardContent {
                content_type: copy_string(&out[k].content_type),
                value: crate::text::copy_opt_bytes(&c.value),
            };
            out.set(k, entry);
            assert(contents_view(out@) =~= before.update(k as int, ContentView { content_type: before[k as int].content_type, value: nv.take(i + 1).last().value }));
        }
        i = i + 1;
    }
    assert(nv.take(new@.len() as int) =~= nv);
    out
}

/// The repeated item after a new copy of it (see [`merge_duplicate_spec`]).
pub fn merge_duplicate(existing: &ClipboardItem, new_item: &ClipboardItem) -> (r: ClipboardItem)
    requires
        existing.number_of_copies < i32::MAX,
    ensures
        r@ == merge_duplicate_spec(existing@, new_item@),
{
    let mut updated = existing.duplicate();
    updated.last_copied_at = new_item.last_copied_at;
    updated.number_of_copies = updated.number_of_copies + 1;
    updated.contents = merge_contents(&existing.contents, &new_item.contents);
    updated
}


/// The ids of the `n` oldest unpinned items of `items` (ordered newest
/// first), oldest first.
pub open spec fn oldest_unpinned_ids(items: Seq<ItemView>, n: int) -> Seq<Seq<char>>
    decreases items.len(),
{
    if items.len() == 0 || n <= 0 {
        Seq::empty()
    } else if items.last().pin is None {
        seq![items.last().id] + oldest_unpinned_ids(items.drop_last(), n - 1)
    } else {
        oldest_unpinned_ids(items.drop_last(), n)
    }
}

/// The number of unpinned items in `items`.
pub open spec fn unpinned_count(items: Seq<ItemView>) -> nat
    decreases items.len(),
{
    if items.len() == 0 {
        0
    } else {
        unpinned_count(items.drop_last()) + if items.last().pin is None { 1nat } else { 0nat }
    }
}

/// `id` is the id of an unpinned item of `items`.
pub open spec fn names_unpinned(items: Seq<ItemView>, id: Seq<char>) -> bool {
    exists|i: int| 0 <= i < items.len() && items[i].pin is None && items[i].id == id
}

proof fn lemma_oldest_unpinned(items: Seq<ItemView>, n: int)
    requires
        n >= 0,
    ensures
        oldest_unpinned_ids(items, n).len() == if n < unpinned_count(items) { n } else { unpinned_count(items) as int },
        forall|k: int| 0 <= k < oldest_unpinned_ids(items, n).len()
            ==> names_unpinned(items, #[trigger] oldest_unpinned_ids(items, n)[k]),
    decreases items.len(),
{
    if items.len() > 0 && n > 0 {
        let rest = items.drop_last();
        if items.last().pin is None {
            lemma_oldest_unpinned(rest, n - 1);
            let ids = oldest_unpinned_ids(items, n);
            let rids = oldest_unpinned_ids(rest, n - 1);
            assert(ids == seq![items.last().id] + rids);
            assert forall|k: int| 0 <= k < ids.len() implies names_unpinned(items, #[trigger] ids[k]) by {
                if k == 0 {
                    assert(items[items.len() - 1].id == ids[0]);
                } else {
                    assert(ids[k] == rids[k - 1]);
                    assert(0 <= k - 1 < rids.len());
                    let i = choose|i: int| 0 <= i < rest.len() && rest[i].pin is None && rest[i].id == rids[k - 1];
                    assert(items[i] == rest[i]);
                }
            }
        } else {
            lemma_oldest_unpinned(rest, n);
            let ids = oldest_unpinned_ids(items, n);
            assert(ids == oldest_unpinned_ids(rest, n));
            assert forall|k: int| 0 <= k < ids.len() implies names_unpinned(items, #[trigger] ids[k]) by {
                let i = choose|i: int| 0 <= i < rest.len() && rest[i].pin is None && rest[i].id == oldest_unpinned_ids(rest, n)[k];
                assert(items[i] == rest[i]);
            }
        }
    }
}

/// How many items must go before one more can be stored: `None` when the
/// history is unlimited or not full.
pub open spec fn excess_count(count: i64, max_size: i32, is_unlimited: bool) -> Option<usize> {
    if !is_unlimited && max_size > 0 && count >= max_size {
        Some((count - max_size + 1) as usize)
    } else {
        None
    }
}

/// What storage has to do to add an item.
#[derive(Clone, Debug)]
pub enum AddPlan {
    /// The item repeats a stored one: store this updated item in its place.
    Update(ClipboardItem),
    /// Delete the items with the ids in `evict`, in that order, then insert `item`.
    Insert { evict: Vec<String>, item: ClipboardItem },
}

/// The ids of the `n` oldest unpinned items of `items` (see [`oldest_unpinned_ids`]).
pub fn oldest_unpinned(items: &[ClipboardItem], n: usize) -> (ids: Vec<String>)
    ensures
        strings_view(ids@) == oldest_unpinned_ids(items_view(items@), n as int),
{
    let ghost iv = items_view(items@);
    let mut ids: Vec<String> = Vec::new();
    let mut i: usize = items.len();
    assert(iv.take(iv.len() as int) =~= iv);
    while i > 0 && ids.len() < n
        invariant
            iv == items_view(items@),
            i <= items@.len(),
            ids@.len() <= n,
            strings_view(ids@) + oldest_unpinned_ids(iv.take(i as int), n - ids@.len()) == oldest_unpinned_ids(iv, n as int),
        decreases i,
    {
        let ghost before = strings_view(ids@);
        proof {
            assert(iv.take(i as int).drop_last() =~= iv.take(i - 1));
            assert(iv.take(i as int).last() == items@[i - 1]@);
        }
        if items[i - 1].pin.is_none() {
            ids.push(copy_string(&items[i - 1].id));
            assert(strings_view(ids@) =~= before + seq![items@[i - 1]@.id]);
            assert(strings_view(ids@) + oldest_unpinned_ids(iv.take(i - 1), n - ids@.len())
                =~= before + oldest_unpinned_ids(iv.take(i as int), n - (ids@.len() - 1)));
        }
        i = i - 1;
    }
    assert(strings_view(ids@) + Seq::<Seq<char>>::empty() =~= strings_view(ids@));
    ids
}

/// No item with an identical view is similar twice over: every item that
/// repeats has a copy count that can still grow.
pub open spec fn copies_can_grow(new_item: ItemView, existing: Seq<ItemView>) -> bool {
    first_similar(new_item, existing) matches Some(i) ==> existing[i].number_of_copies < i32::MAX
}

/// Decide how to add `item` to a history whose stored items are `existing`
/// (newest first) and whose size is `count`. When the item repeats a stored
/// one, that one is updated; otherwise, when the history is limited to
/// `max_size` items and full, the oldest unpinned items make room and the
/// item is inserted.
pub fn plan_add(item: ClipboardItem, existing: &[ClipboardItem], count: i64, max_size: i32, is_unlimited: bool) -> (plan: AddPlan)
    requires
        copies_can_grow(item@, items_view(existing@)),
    ensures
        match first_similar(item@, items_view(existing@)) {
            Some(i) => plan matches AddPlan::Update(u) && u@ == merge_duplicate_spec(existing@[i]@, item@),
            None => plan matches AddPlan::Insert { evict, item: it } && it@ == item@
                && strings_view(evict@) == match excess_count(count, max_size, is_unlimited) {
                    Some(n) => oldest_unpinned_ids(items_view(existing@), n as int),
                    None => Seq::empty(),
                },
        },
{
    match find_similar(&item, existing) {
        Some(similar) => {
            proof {
                let i = first_similar(item@, items_view(existing@))->0;
                assert(items_view(existing@)[i] == existing@[i]@);
            }
            AddPlan::Update(merge_duplicate(similar, &item))
        },
        None => {
            let mut evict: Vec<String> = Vec::new();
            if !is_unlimited && max_size > 0 {
                if count >= max_size as i64 {
                    let excess = (count - max_size as i64 + 1) as usize;
                    evict = oldest_unpinned(existing, excess);
                }
            }
            assert(strings_view(evict@) =~= match excess_count(count, max_size, is_unlimited) {
                Some(n) => oldest_unpinned_ids(items_view(existing@), n as int),
                None => Seq::empty(),
            });
            AddPlan::Insert { evict, item }
        },
    }
}

/// The pin an item gets from [`toggle_pin_item`].
pub open spec fn toggled_pin(pin: Option<Seq<char>>, available_pins: Seq<Seq<char>>) -> Option<Seq<char>> {
    if pin is Some {
        None
    } else if available_pins.len() > 0 {
        Some(available_pins[0])
    } else {
        None
    }
}

/// Toggle the pin of an item: a pinned item is unpinned, an unpinned one
/// takes the first of the available pin keys (and stays unpinned when there
/// is none).
pub fn toggle_pin_item(item: ClipboardItem, available_pins: &[String]) -> (r: ClipboardItem)
    ensures
        r@ == (ItemView { pin: toggled_pin(item@.pin, strings_view(available_pins@)), ..item@ }),
{
    let mut item = item;
    if item.pin.is_some() {
        item.pin = None;
    } else if available_pins.len() > 0 {
        item.pin = Some(copy_string(&available_pins[0]));
    } else {
        item.pin = None;
    }
    item
}

/// The entries of an item whose text became `text`: the first plain-text
/// entry holds the UTF-8 bytes of the text.
pub open spec fn with_text_value(contents: Seq<ContentView>, text_bytes: Seq<u8>) -> Seq<ContentView> {
    let k = first_of_type(contents, plain_text_type());
    if k < contents.len() {
        contents.update(k, ContentView { content_type: contents[k].content_type, value: Some(text_bytes) })
    } else {
        contents
    }
}

/// Replace the text of an item: the title becomes `new_text`, and the first
/// plain-text entry holds its UTF-8 bytes.
pub fn update_item_text(item: ClipboardItem, new_text: String) -> (r: ClipboardItem)
    ensures
        r@ == (ItemView {
            title: new_text@,
            contents: with_text_value(item@.contents, vstd::utf8::encode_utf8(new_text@)),
            ..item@
        }),
{
    let mut item = item;
    let text_type = String::from_str("public.utf8-plain-text");
    let k = index_of_type(&item.contents, &text_type);
    proof { lemma_first_of_type_bound(contents_view(item.contents@), text_type@); }
    if k < item.contents.len() {
        let ghost before = contents_view(item.contents@);
        let bytes = vstd::slice::slice_to_vec(new_text.as_str().as_bytes());
        let entry = ClipboardContent { content_type: copy_string(&item.contents[k].content_type), value: Some(bytes) };
        item.contents.set(k, entry);
        assert(contents_view(item.contents@) =~= with_text_value(before, vstd::utf8::encode_utf8(new_text@)));
    }
    item.title = new_text;
    item
}

/// The size limit holds: when the history is limited to `max_size` items,
/// the items that [`plan_add`] evicts before an insertion are unpinned ones
/// (pinned items are never evicted), as many as needed when there are that
/// many unpinned items and all of them otherwise; so when enough items are
/// unpinned, the history holds at most `max_size` items after the insertion.
pub proof fn law_add_respects_limit(existing: Seq<ItemView>, max_size: i32, is_unlimited: bool)
    requires
        existing.len() < usize::MAX,
        existing.len() <= i64::MAX,
    ensures
        ({
            let count = existing.len() as i64;
            let evicted = match excess_count(count, max_size, is_unlimited) {
                Some(n) => oldest_unpinned_ids(existing, n as int),
                None => Seq::empty(),
            };
            &&& forall|k: int| 0 <= k < evicted.len() ==> names_unpinned(existing, #[trigger] evicted[k])
            &&& !is_unlimited && max_size > 0 && unpinned_count(existing) + max_size >= existing.len() + 1
                ==> existing.len() - evicted.len() + 1 <= max_size
            &&& !is_unlimited && max_size > 0 && unpinned_count(existing) + max_size < existing.len() + 1
                ==> evicted.len() == unpinned_count(existing)
        }),
{
    let count = existing.len() as i64;
    match excess_count(count, max_size, is_unlimited) {
        Some(n) => {
            assert(n as int == existing.len() - max_size + 1);
            lemma_oldest_unpinned(existing, n as int);
        },
        None => {},
    }
}

/// A copy of a stored item repeats it: when `item` has an entry that counts
/// and `existing` holds the same item, [`plan_add`] finds a stored item to
/// update instead of inserting a new one.
pub proof fn law_copy_repeats_stored(item: ItemView, existing: Seq<ItemView>, j: int)
    requires
        exists|i: int| 0 <= i < item.contents.len() && is_significant(item.contents[i]),
        0 <= j < existing.len(),
        existing[j] == item,
    ensures
        first_similar(item, existing) is Some,
{
    assert forall|i: int| 0 <= i < item.contents.len() && is_significant(item.contents[i])
        implies has_matching_content(item.contents, #[trigger] item.contents[i]) by {
        assert(item.contents[i].content_type == item.contents[i].content_type);
    }
    assert(is_similar(item, existing[j]));
}

/// Toggling the pin of an unpinned item twice, with the same available pin
/// keys, leaves it unpinned; toggling a pinned item always unpins it.
pub proof fn law_toggle_pin(pin: Option<Seq<char>>, available_pins: Seq<Seq<char>>)
    ensures
        pin is None ==> toggled_pin(toggled_pin(pin, available_pins), available_pins) is None,
        pin is Some ==> toggled_pin(pin, available_pins) is None,
{
}

/// A row of the SwiftData history table that is migrated, with its times
/// already in Unix milliseconds.
#[derive(Clone, Debug)]
pub struct SwiftRow {
    pub application: Option<String>,
    pub first_copied_at: i64,
    pub last_copied_at: i64,
    pub number_of_copies: i64,
    pub pin: Option<String>,
    pub title: String,
    pub sync_id: String,
    pub sync_timestamp: i64,
    pub sync_source: Option<String>,
    pub sync_deleted: i64,
}

/// The item that a migrated row becomes: an empty sync id is replaced by
/// `fresh_id`, an empty pin means no pin, the copy count is cut to 32 bits,
/// and a non-zero deletion flag marks the item deleted.
pub open spec fn swift_item(row: SwiftRow, contents: Seq<ContentView>, fresh_id: Seq<char>) -> ItemView {
    ItemView {
        id: if row.sync_id@.len() == 0 { fresh_id } else { row.sync_id@ },
        application: opt_string_view(row.application),
        first_copied_at: row.first_copied_at,
        last_copied_at: row.last_copied_at,
        number_of_copies: row.number_of_copies as i32,
        pin: match row.pin {
            Some(p) => if p@.len() == 0 { None } else { Some(p@) },
            None => None,
        },
        title: row.title@,
        contents,
        sync_timestamp: row.sync_timestamp,
        sync_source: opt_string_view(row.sync_source),
        sync_deleted: row.sync_deleted != 0,
    }
}

/// The clipboard item of a migrated SwiftData row with its entries (see
/// [`swift_item`]); `fresh_id` names the item when the row has no sync id.
pub fn item_from_swift_row(row: SwiftRow, contents: Vec<ClipboardContent>, fresh_id: String) -> (item: ClipboardItem)
    ensures
        item@ == swift_item(row, contents_view(contents@), fresh_id@),
{
    let id = if row.sync_id.as_str().is_empty() { fresh_id } else { row.sync_id };
    let pin = match row.pin {
        Some(p) => if p.as_str().is_empty() { None } else { Some(p) },
        None => None,
    };
    ClipboardItem {
        id,
        application: row.application,
        first_copied_at: row.first_copied_at,
        last_copied_at: row.last_copied_at,
        number_of_copies: row.number_of_copies as i32,
        pin,
        title: row.title,
        contents,
        sync_timestamp: row.sync_timestamp,
        sync_source: row.sync_source,
        sync_deleted: row.sync_deleted != 0,
    }
}

/// Two entry lists with the same types, position by position.
pub open spec fn same_types(a: Seq<ContentView>, b: Seq<ContentView>) -> bool {
    a.len() == b.len() && forall|j: int| 0 <= j < a.len() ==> #[trigger] a[j].content_type == b[j].content_type
}

proof fn lemma_first_of_type_same_types(a: Seq<ContentView>, b: Seq<ContentView>, t: Seq<char>)
    requires
        same_types(a, b),
    ensures
        first_of_type(a, t) == first_of_type(b, t),
    decreases a.len(),
{
    if a.len() > 0 && a[0].content_type != t {
        assert(a[0].content_type == b[0].content_type);
        assert forall|j: int| 0 <= j < a.drop_first().len() implies #[trigger] a.drop_first()[j].content_type == b.drop_first()[j].content_type by {
            assert(a[j + 1].content_type == b[j + 1].content_type);
        }
        lemma_first_of_type_same_types(a.drop_first(), b.drop_first(), t);
    } else if a.len() > 0 {
        assert(a[0].content_type == b[0].content_type);
    }
}

proof fn lemma_add_new_types(base: Seq<ContentView>, new: Seq<ContentView>)
    ensures
        forall|i: int| 0 <= i < new.len() ==> has_type(add_new_types(base, new), #[trigger] new[i].content_type),
        add_new_types(base, new).len() >= base.len(),
        forall|j: int| 0 <= j < base.len() ==> #[trigger] add_new_types(base, new)[j] == base[j],
    decreases new.len(),
{
    if new.len() > 0 {
        let rest = new.drop_last();
        lemma_add_new_types(base, rest);
        let b = add_new_types(base, rest);
        let r = add_new_types(base, new);
        assert forall|i: int| 0 <= i < new.len() implies has_type(r, #[trigger] new[i].content_type) by {
            if i < new.len() - 1 {
                assert(has_type(b, rest[i].content_type));
                let j = choose|j: int| 0 <= j < b.len() && b[j].content_type == rest[i].content_type;
                assert(r[j] == b[j]);
            } else if !has_type(b, new.last().content_type) {
                assert(r[b.len() as int] == new.last());
            }
        }
        assert forall|j: int| 0 <= j < base.len() implies #[trigger] r[j] == base[j] by {
            assert(b[j] == base[j]);
        }
    }
}

proof fn lemma_overwrite_types(base: Seq<ContentView>, new: Seq<ContentView>)
    ensures
        same_types(overwrite_values(base, new), base),
    decreases new.len(),
{
    if new.len() > 0 {
        lemma_overwrite_types(base, new.drop_last());
        let b = overwrite_values(base, new.drop_last());
        lemma_first_of_type_bound(b, new.last().content_type);
    }
}

proof fn lemma_overwrite_values(base: Seq<ContentView>, new: Seq<ContentView>, i: int)
    requires
        0 <= i < new.len(),
        forall|a: int, b: int| 0 <= a < b < new.len() ==> new[a].content_type != new[b].content_type,
        has_type(base, new[i].content_type),
    ensures
        overwrite_values(base, new)[first_of_type(base, new[i].content_type)] == new[i],
    decreases new.len(),
{
    let rest = new.drop_last();
    let b = overwrite_values(base, rest);
    let t = new[i].content_type;
    lemma_overwrite_types(base, rest);
    lemma_first_of_type_same_types(b, base, t);
    lemma_first_of_type_bound(base, t);
    let f = first_of_type(base, t);
    let tl = new.last().content_type;
    lemma_first_of_type_bound(b, tl);
    lemma_first_of_type_same_types(b, base, tl);
    if i == new.len() - 1 {
        assert(b[f].content_type == t);
    } else {
        lemma_overwrite_values(base, rest, i);
        assert(b[f] == new[i]);
        if first_of_type(b, tl) < b.len() {
            assert(b[first_of_type(b, tl)].content_type == tl);
            assert(first_of_type(b, tl) != f);
        }
    }
}

/// A merge keeps what was copied: after a copy is merged into the item it
/// repeats, every entry of the copy is present with the copy's value, and the
/// stored entries keep their types and places. (A copy holds at most one
/// entry of each type.) So the updated item still repeats the copy.
pub proof fn law_merge_keeps_copy(existing: ItemView, new_item: ItemView)
    requires
        forall|a: int, b: int| 0 <= a < b < new_item.contents.len()
            ==> new_item.contents[a].content_type != new_item.contents[b].content_type,
    ensures
        ({
            let merged = merge_duplicate_spec(existing, new_item).contents;
            &&& forall|i: int| 0 <= i < new_item.contents.len() ==> has_matching_content(merged, #[trigger] new_item.contents[i])
            &&& merged.len() >= existing.contents.len()
            &&& forall|j: int| 0 <= j < existing.contents.len() ==> #[trigger] merged[j].content_type == existing.contents[j].content_type
            &&& (exists|i: int| 0 <= i < new_item.contents.len() && is_significant(new_item.contents[i]))
                ==> is_similar(new_item, merge_duplicate_spec(existing, new_item))
        }),
{
    let new = new_item.contents;
    let a = add_new_types(existing.contents, new);
    let merged = overwrite_values(a, new);
    lemma_add_new_types(existing.contents, new);
    lemma_overwrite_types(a, new);
    assert forall|i: int| 0 <= i < new.len() implies has_matching_content(merged, #[trigger] new[i]) by {
        lemma_overwrite_values(a, new, i);
        lemma_first_of_type_bound(a, new[i].content_type);
        let f = first_of_type(a, new[i].content_type);
        assert(merged[f] == new[i]);
    }
    assert forall|j: int| 0 <= j < existing.contents.len() implies #[trigger] merged[j].content_type == existing.contents[j].content_type by {
        assert(a[j] == existing.contents[j]);
        assert(merged[j].content_type == a[j].content_type);
    }
}

} // verus!
