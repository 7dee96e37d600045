//! Searching clipboard items by title: exact (case-insensitive substring),
//! fuzzy, regular-expression and mixed searches, with the matched character
//! ranges of each title.

use vstd::prelude::*;
use fuzzy_matcher::skim::SkimMatcherV2;
use fuzzy_matcher::FuzzyMatcher;
use crate::model::{ClipboardItem, ItemView, MatchRange, SearchMode, SearchResult, SearchResultView, items_view, ranges_view, results_view};
use crate::text::{lemma_char_index_from, lemma_byte_len_prefix_lt, push_char, string_from_prefix, lemma_byte_len_bound, byte_len, byte_len_of, char_index_at_byte, char_index_of_byte, chars_of, find_chars, find_from, lowercase, to_lowercase, all_ascii, ascii_lower, is_ascii_char};
use crate::sort::{is_stable_sort, stable_sort_by_keys, lemma_stable_sort_map};

verus! {

broadcast use vstd::seq_lib::group_seq_properties;

/// Fuzzy matching looks at no more than this many bytes of a title.
pub const FUZZY_SEARCH_LIMIT: usize = 5000;

/// What `SkimMatcherV2::default().ignore_case().fuzzy_indices(choice, pattern)`
/// returns: the score and the character indices of `choice` that matched.
pub uninterp spec fn skim_fuzzy_indices(choice: Seq<char>, pattern: Seq<char>) -> Option<(i64, Seq<usize>)>;

/// `SkimMatcherV2::fuzzy_indices` with case ignored. Its result is
/// [`skim_fuzzy_indices`] of the arguments; the score is a 32-bit score
/// widened (the matcher scores in `i32`), higher for a better match, and the
/// indices it reports are strictly increasing character indices of `choice`.
#[verifier::external_body]
fn fuzzy_indices(choice: &str, pattern: &str) -> (r: Option<(i64, Vec<usize>)>)
    ensures
        match r {
            Some((score, idx)) => {
                &&& skim_fuzzy_indices(choice@, pattern@) == Some((score, idx@))
                &&& i32::MIN <= score <= i32::MAX
                &&& forall|i: int, j: int| 0 <= i < j < idx@.len() ==> idx@[i] < idx@[j]
                &&& forall|i: int| 0 <= i < idx@.len() ==> idx@[i] < choice@.len()
            },
            None => skim_fuzzy_indices(choice@, pattern@) is None,
        },
{
    SkimMatcherV2::default().ignore_case().fuzzy_indices(choice, pattern)
}

#[verifier::external_type_specification]
#[verifier::external_body]
pub struct ExRegex(regex::Regex);

/// Whether `regex::Regex::new` accepts the pattern.
pub uninterp spec fn regex_accepts(pattern: Seq<char>) -> bool;

/// The byte offsets `(start, end)` of the first match that `Regex::find`
/// reports for the compiled pattern in `hay`.
pub uninterp spec fn regex_first_match(pattern: Seq<char>, hay: Seq<char>) -> Option<(int, int)>;

/// A regular expression compiled from a query, with its source.
pub struct TitlePattern {
    source: String,
    re: regex::Regex,
}

impl TitlePattern {
    pub closed spec fn source(&self) -> Seq<char> {
        self.source@
    }
}

/// `regex::Regex::new`: succeeds exactly when [`regex_accepts`] holds of the pattern.
#[verifier::external_body]
fn compile_pattern(pattern: &str) -> (r: Option<TitlePattern>)
    ensures
        (r is Some) == regex_accepts(pattern@),
        r matches Some(p) ==> p.source() == pattern@,
{
    match regex::Regex::new(pattern) {
        Ok(re) => Some(TitlePattern { source: pattern.to_string(), re }),
        Err(_) => None,
    }
}

/// `Regex::find`: its byte offsets are [`regex_first_match`] of the source
/// and the haystack; the crate guarantees `start <= end` and that both fall on
/// character boundaries of the haystack.
#[verifier::external_body]
fn find_match(p: &TitlePattern, hay: &str) -> (r: Option<(usize, usize)>)
    ensures
        match r {
            Some((s, e)) => {
                &&& regex_first_match(p.source(), hay@) == Some((s as int, e as int))
                &&& s <= e
                &&& char_index_of_byte(hay@, s as int) is Some
                &&& char_index_of_byte(hay@, e as int) is Some
            },
            None => regex_first_match(p.source(), hay@) is None,
        },
{
    p.re.find(hay).map(|m| (m.start(), m.end()))
}

/// The runs of consecutive indices of `idx`, as half-open ranges.
pub open spec fn runs_of(idx: Seq<usize>) -> Seq<(i64, i64)>
    decreases idx.len(),
{
    if idx.len() == 0 {
        Seq::empty()
    } else {
        let r = runs_of(idx.drop_last());
        let x = idx.last() as i64;
        if r.len() > 0 && r.last().1 == x {
            r.update(r.len() - 1, (r.last().0, (x + 1) as i64))
        } else {
            r.push((x, (x + 1) as i64))
        }
    }
}

/// Convert the matched character indices that the fuzzy matcher reports into
/// ranges: each run of consecutive indices becomes one range. (Indices are
/// taken as `i64`; one that becomes `i64::MAX` would have no end.)
pub fn char_indices_to_ranges(indices: &[usize]) -> (ranges: Vec<MatchRange>)
    requires
        forall|i: int| 0 <= i < indices@.len() ==> (indices@[i] as i64) < i64::MAX,
    ensures
        ranges_view(ranges@) == runs_of(indices@),
{
    let mut ranges: Vec<MatchRange> = Vec::new();
    if indices.len() == 0 {
        assert(ranges_view(ranges@) =~= runs_of(indices@));
        return ranges;
    }
    let mut start = indices[0] as i64;
    let mut end = start + 1;
    let mut k: usize = 1;
    assert(indices@.take(1).drop_last() =~= Seq::<usize>::empty());
    assert(runs_of(indices@.take(1).drop_last()) =~= Seq::<(i64, i64)>::empty());
    assert(indices@.take(1).last() == indices@[0]);
    assert(ranges_view(ranges@).push((start, end)) =~= runs_of(indices@.take(1)));
    while k < indices.len()
        invariant
            1 <= k <= indices@.len(),
            forall|i: int| 0 <= i < indices@.len() ==> (indices@[i] as i64) < i64::MAX,
            end as int == (indices@[k - 1] as i64) as int + 1,
            ranges_view(ranges@).push((start, end)) == runs_of(indices@.take(k as int)),
        decreases indices@.len() - k,
    {
        let x = indices[k] as i64;
        let ghost before = ranges_view(ranges@);
        assert(indices@.take(k + 1).drop_last() =~= indices@.take(k as int));
        if x == end {
            end = x + 1;
            assert(ranges_view(ranges@).push((start, end)) =~= runs_of(indices@.take(k + 1)));
        } else {
            ranges.push(MatchRange { start, end });
            start = x;
            end = x + 1;
            assert(ranges_view(ranges@).push((start, end)) =~= runs_of(indices@.take(k + 1)));
        }
        k = k + 1;
    }
    ranges.push(MatchRange { start, end });
    assert(indices@.take(indices@.len() as int) =~= indices@);
    ranges
}


/// How many characters the lowercase form of `c` has: one for an ASCII
/// character, else the length of what `str::to_lowercase` makes of the text
/// of `c` alone.
pub open spec fn fold_len(c: char) -> nat {
    if is_ascii_char(c) {
        1
    } else {
        lowercase(seq![c]).len()
    }
}

/// How many characters the lowercase forms of the first `k` characters of
/// `t` have together.
pub open spec fn prefix_fold_len(t: Seq<char>, k: int) -> nat
    decreases k,
{
    if k <= 0 {
        0
    } else {
        prefix_fold_len(t, k - 1) + fold_len(t[k - 1])
    }
}

/// The first character index `j >= k` of `t` whose prefix lowercases to at
/// least `x` characters; the length of `t` when there is none.
pub open spec fn cover_from(t: Seq<char>, x: int, k: int) -> int
    decreases t.len() - k,
{
    if k >= t.len() {
        t.len() as int
    } else if prefix_fold_len(t, k) >= x {
        k
    } else {
        cover_from(t, x, k + 1)
    }
}

/// The character index of `t` at which character `x` of its lowercase form
/// begins (see [`cover_from`]).
pub open spec fn cover(t: Seq<char>, x: int) -> int {
    cover_from(t, x, 0)
}

/// Where the exact search finds `query` in `title`, as the character range
/// `(start, end)` it reports: the lowercased query is sought in the
/// lowercased title, and the range is made of the title's characters whose
/// lowercase forms hold the occurrence.
pub open spec fn exact_title_match(title: Seq<char>, query: Seq<char>) -> Option<(i64, i64)> {
    match find_from(lowercase(title), lowercase(query), 0) {
        Some(i) => Some((cover(title, i) as i64, cover(title, i + lowercase(query).len()) as i64)),
        None => None,
    }
}

proof fn lemma_cover_from(t: Seq<char>, x: int, y: int, k: int)
    requires
        0 <= k <= t.len(),
        x <= y,
    ensures
        k <= cover_from(t, x, k) <= cover_from(t, y, k) <= t.len(),
    decreases t.len() - k,
{
    if k < t.len() {
        lemma_cover_from(t, x, y, k + 1);
    }
}

/// A range that [`exact_title_match`] reports lies within the title.
proof fn lemma_exact_range(title: Seq<char>, query: Seq<char>)
    requires
        find_from(lowercase(title), lowercase(query), 0) is Some,
    ensures
        ({
            let i = find_from(lowercase(title), lowercase(query), 0)->0;
            0 <= cover(title, i) <= cover(title, i + lowercase(query).len()) <= title.len()
        }),
{
    let i = find_from(lowercase(title), lowercase(query), 0)->0;
    lemma_find_from(lowercase(title), lowercase(query), 0);
    lemma_cover_from(title, i, i + lowercase(query).len(), 0);
}

proof fn lemma_find_from(hay: Seq<char>, needle: Seq<char>, i: int)
    requires
        find_from(hay, needle, i) is Some,
    ensures
        i <= find_from(hay, needle, i)->0,
        find_from(hay, needle, i)->0 + needle.len() <= hay.len(),
    decreases hay.len() + 1 - i,
{
    if i >= 0 && i + needle.len() <= hay.len() && hay.subrange(i, i + needle.len()) != needle {
        lemma_find_from(hay, needle, i + 1);
    }
}

/// The number of characters of the lowercase form of `c` (see [`fold_len`]).
fn fold_len_of(c: char) -> (n: usize)
    ensures
        n == fold_len(c),
{
    if (c as u32) <= 0x7f {
        1
    } else {
        let mut one = String::new();
        push_char(&mut one, c);
        assert(one@ =~= seq![c]);
        let low = to_lowercase(one.as_str());
        chars_of(low.as_str()).len()
    }
}

/// The character index of `t` at which character `x` of its lowercase form
/// begins (see [`cover`]).
fn cover_exec(t: &[char], x: usize) -> (k: usize)
    ensures
        k == cover(t@, x as int),
{
    let mut acc: u128 = 0;
    let mut k: usize = 0;
    loop
        invariant
            k <= t@.len(),
            acc == prefix_fold_len(t@, k as int),
            k > 0 ==> prefix_fold_len(t@, k - 1) < x,
            cover(t@, x as int) == cover_from(t@, x as int, k as int),
        decreases t@.len() - k,
    {
        if k == t.len() {
            return k;
        }
        if acc >= x as u128 {
            return k;
        }
        let w = fold_len_of(t[k]);
        acc = acc + w as u128;
        k = k + 1;
    }
}

/// The range of [`exact_title_match`], given the lowercase form `lq` of the
/// query; also what the title's lowercase form is when the title is ASCII.
fn exact_title_match_exec(title: &str, query: &str, lq: &Vec<char>) -> (r: Option<MatchRange>)
    requires
        lq@ == lowercase(query@),
    ensures
        match exact_title_match(title@, query@) {
            None => r is None,
            Some(rg) => r matches Some(m) && m@ == rg,
        },
        all_ascii(title@) ==> lowercase(title@) == ascii_lower(title@),
{
    let tc = chars_of(title);
    let lt_s = to_lowercase(title);
    let lt = chars_of(lt_s.as_str());
    match find_chars(lt.as_slice(), lq.as_slice()) {
        None => None,
        Some(i) => {
            let n = lt.len();
            assert(i + lq@.len() <= n);
            let start = cover_exec(tc.as_slice(), i);
            let end = cover_exec(tc.as_slice(), i + lq.len());
            Some(MatchRange { start: start as i64, end: end as i64 })
        },
    }
}

/// The results of an exact search: the items whose title contains the
/// query (case ignored), in order, unscored, each with the character range
/// of the first occurrence.
pub open spec fn exact_results(query: Seq<char>, items: Seq<ItemView>) -> Seq<SearchResultView>
    decreases items.len(),
{
    if items.len() == 0 {
        Seq::empty()
    } else {
        let r = exact_results(query, items.drop_last());
        match exact_title_match(items.last().title, query) {
            Some(rg) => r.push(SearchResultView { item: items.last(), score: None, ranges: seq![rg] }),
            None => r,
        }
    }
}

/// What the fuzzy matcher is given of a title: its first
/// [`FUZZY_SEARCH_LIMIT`] bytes; `None` when that byte count does not fall on
/// a character boundary.
pub open spec fn fuzzy_choice(title: Seq<char>) -> Option<Seq<char>> {
    if byte_len(title) > FUZZY_SEARCH_LIMIT {
        match char_index_of_byte(title, FUZZY_SEARCH_LIMIT as int) {
            Some(k) => Some(title.take(k)),
            None => None,
        }
    } else {
        Some(title)
    }
}

/// The fuzzy score and matched ranges of a title, if it matches; `None`
/// when the title cannot be cut (see [`fuzzy_choice`]). The score is the
/// matcher's score negated, so that a lower score is a better match.
pub open spec fn fuzzy_title_match(title: Seq<char>, query: Seq<char>) -> Option<Option<(i64, Seq<(i64, i64)>)>> {
    match fuzzy_choice(title) {
        None => None,
        Some(c) => Some(
            match skim_fuzzy_indices(c, query) {
                Some((score, idx)) => Some(((-score) as i64, runs_of(idx))),
                None => None,
            },
        ),
    }
}

/// The fuzzy matches, in the order of the items.
pub open spec fn fuzzy_matches(query: Seq<char>, items: Seq<ItemView>) -> Option<Seq<SearchResultView>>
    decreases items.len(),
{
    if items.len() == 0 {
        Some(Seq::empty())
    } else {
        match (fuzzy_matches(query, items.drop_last()), fuzzy_title_match(items.last().title, query)) {
            (Some(r), Some(m)) => Some(
                match m {
                    Some((score, rgs)) => r.push(SearchResultView { item: items.last(), score: Some(score), ranges: rgs }),
                    None => r,
                },
            ),
            _ => None,
        }
    }
}

/// Results are ordered best first: by increasing score.
pub open spec fn score_rank(r: SearchResultView) -> int {
    match r.score {
        Some(s) => s as int,
        None => 0int,
    }
}

pub open spec fn score_rank_fn() -> spec_fn(SearchResultView) -> int {
    |r: SearchResultView| score_rank(r)
}

/// The character index of byte offset `b` of `t` (0 when it is no boundary).
pub open spec fn char_pos(t: Seq<char>, b: int) -> int {
    match char_index_of_byte(t, b) {
        Some(k) => k,
        None => 0,
    }
}

/// The character range of the first match of the regular expression in a title.
pub open spec fn regex_title_match(query: Seq<char>, title: Seq<char>) -> Option<(i64, i64)> {
    match regex_first_match(query, title) {
        Some((s, e)) => Some((char_pos(title, s) as i64, char_pos(title, e) as i64)),
        None => None,
    }
}

pub open spec fn regex_matches(query: Seq<char>, items: Seq<ItemView>) -> Seq<SearchResultView>
    decreases items.len(),
{
    if items.len() == 0 {
        Seq::empty()
    } else {
        let r = regex_matches(query, items.drop_last());
        match regex_title_match(query, items.last().title) {
            Some(rg) => r.push(SearchResultView { item: items.last(), score: None, ranges: seq![rg] }),
            None => r,
        }
    }
}

/// The results of a regular-expression search: none when the query is not a
/// valid pattern, else the items whose title it matches, in order.
pub open spec fn regexp_results(query: Seq<char>, items: Seq<ItemView>) -> Seq<SearchResultView> {
    if regex_accepts(query) {
        regex_matches(query, items)
    } else {
        Seq::empty()
    }
}

/// Every item, unscored and without ranges.
pub open spec fn all_results(items: Seq<ItemView>) -> Seq<SearchResultView> {
    items.map_values(|it: ItemView| SearchResultView { item: it, score: None, ranges: Seq::empty() })
}

/// The search of `query` in `items` cannot complete: the fuzzy search
/// cannot cut some title at its byte limit (see [`fuzzy_choice`]).
pub open spec fn search_fails(query: Seq<char>, items: Seq<ItemView>, mode: SearchMode) -> bool {
    query.len() > 0 && match mode {
        SearchMode::Exact => false,
        SearchMode::Fuzzy => fuzzy_matches(query, items) is None,
        SearchMode::Regexp => false,
        SearchMode::Mixed => exact_results(query, items).len() == 0 && regexp_results(query, items).len() == 0
            && fuzzy_matches(query, items) is None,
    }
}

/// `out` is the result of searching `query` in `items`: every item for an
/// empty query; otherwise the exact matches, the fuzzy matches best first
/// (lowest score first, ties in item order), the regular-expression
/// matches, or, in mixed mode, the first non-empty of exact,
/// regular-expression and fuzzy results.
pub open spec fn search_result(query: Seq<char>, items: Seq<ItemView>, mode: SearchMode, out: Seq<SearchResultView>) -> bool {
    if query.len() == 0 {
        out == all_results(items)
    } else {
        match mode {
            SearchMode::Exact => out == exact_results(query, items),
            SearchMode::Fuzzy => fuzzy_matches(query, items) matches Some(u) && is_stable_sort(out, u, score_rank_fn()),
            SearchMode::Regexp => out == regexp_results(query, items),
            SearchMode::Mixed => if exact_results(query, items).len() > 0 {
                out == exact_results(query, items)
            } else if regexp_results(query, items).len() > 0 {
                out == regexp_results(query, items)
            } else {
                fuzzy_matches(query, items) matches Some(u) && is_stable_sort(out, u, score_rank_fn())
            },
        }
    }
}

proof fn lemma_fuzzy_prefix_fail(query: Seq<char>, items: Seq<ItemView>, j: int)
    requires
        0 <= j <= items.len(),
        fuzzy_matches(query, items.take(j)) is None,
    ensures
        fuzzy_matches(query, items) is None,
    decreases items.len() - j,
{
    if j < items.len() {
        assert(items.take(j + 1).drop_last() =~= items.take(j));
        lemma_fuzzy_prefix_fail(query, items, j + 1);
    } else {
        assert(items.take(j) =~= items);
    }
}

fn fuzzy_title_match_exec(title: &str, query: &str) -> (r: Option<Option<(i64, Vec<MatchRange>)>>)
    ensures
        match fuzzy_title_match(title@, query@) {
            None => r is None,
            Some(None) => r matches Some(None),
            Some(Some((score, rgs))) => r matches Some(Some((s, v))) && s == score && ranges_view(v@) == rgs,
        },
{
    let tc = chars_of(title);
    let tb = byte_len_of(tc.as_slice());
    proof { lemma_byte_len_bound(title@); }
    let choice = if tb > FUZZY_SEARCH_LIMIT as u128 {
        match char_index_at_byte(tc.as_slice(), FUZZY_SEARCH_LIMIT as u128) {
            None => { return None; },
            Some(k) => {
                proof { lemma_byte_len_bound(tc@.take(k as int)); }
                string_from_prefix(tc.as_slice(), k)
            },
        }
    } else {
        crate::text::copy_string(&title.to_owned())
    };
    assert(fuzzy_choice(title@) == Some(choice@));
    assert(choice@.len() <= 5000);
    match fuzzy_indices(choice.as_str(), query) {
        None => Some(None),
        Some((score, idx)) => {
            let ranges = char_indices_to_ranges(idx.as_slice());
            Some(Some((-score, ranges)))
        },
    }
}

/// The first match of the regular expression `query` in `title`, if any,
/// starts and ends on character boundaries of the title.
pub open spec fn regex_match_on_boundaries(query: Seq<char>, title: Seq<char>) -> bool {
    regex_first_match(query, title) matches Some((s, e)) ==> {
        &&& s <= e
        &&& char_index_of_byte(title, s) is Some
        &&& char_index_of_byte(title, e) is Some
    }
}

fn regex_title_match_exec(p: &TitlePattern, title: &str) -> (r: Option<MatchRange>)
    ensures
        match regex_title_match(p.source(), title@) {
            None => r is None,
            Some(rg) => r matches Some(m) && m@ == rg,
        },
        regex_match_on_boundaries(p.source(), title@),
{
    match find_match(p, title) {
        None => None,
        Some((s, e)) => {
            let tc = chars_of(title);
            let start = char_index_at_byte(tc.as_slice(), s as u128).unwrap();
            let end = char_index_at_byte(tc.as_slice(), e as u128).unwrap();
            Some(MatchRange { start: start as i64, end: end as i64 })
        },
    }
}

/// A search engine over clipboard item titles.
pub struct SearchEngine;

impl SearchEngine {
    /// The exact search (see [`exact_results`]); it also learns what the
    /// lowercase forms of ASCII titles and of an ASCII query are.
    pub fn exact_search(query: &str, items: &[ClipboardItem]) -> (out: Vec<SearchResult>)
        ensures
            results_view(out@) == exact_results(query@, items_view(items@)),
            ascii_lowercase_known(query@, items_view(items@)),
    {
        let ghost iv = items_view(items@);
        let lq_s = to_lowercase(query);
        let lq = chars_of(lq_s.as_str());
        let mut out: Vec<SearchResult> = Vec::new();
        let mut i: usize = 0;
        assert(iv.take(0) =~= Seq::<ItemView>::empty());
        assert(results_view(out@) =~= Seq::<SearchResultView>::empty());
        while i < items.len()
            invariant
                iv == items_view(items@),
                i <= items@.len(),
                lq@ == lowercase(query@),
                all_ascii(query@) ==> lowercase(query@) == ascii_lower(query@),
                exact_results(query@, iv.take(i as int)) == results_view(out@),
                forall|j: int| 0 <= j < i && all_ascii(#[trigger] iv[j].title) ==> lowercase(iv[j].title) == ascii_lower(iv[j].title),
            decreases items@.len() - i,
        {
            assert(iv.take(i + 1).drop_last() =~= iv.take(i as int));
            assert(iv.take(i + 1).last() == items@[i as int]@);
            assert(iv[i as int] == items@[i as int]@);
            match exact_title_match_exec(items[i].title.as_str(), query, &lq) {
                None => {},
                Some(m) => {
                    let ghost mv = m@;
                    let ranges = vec![m];
                    assert(ranges_view(ranges@) =~= seq![mv]);
                    out.push(SearchResult { item: items[i].duplicate(), score: None, ranges });
                    assert(results_view(out@) =~= exact_results(query@, iv.take(i + 1)));
                },
            }
            i = i + 1;
        }
        assert(iv.take(items@.len() as int) =~= iv);
        out
    }

    /// The fuzzy search: the fuzzy matches best first (see [`fuzzy_matches`]),
    /// `None` when some title cannot be cut at the byte limit.
    pub fn fuzzy_search(query: &str, items: &[ClipboardItem]) -> (r: Option<Vec<SearchResult>>)
        ensures
            match fuzzy_matches(query@, items_view(items@)) {
                None => r is None,
                Some(u) => r matches Some(out) && is_stable_sort(results_view(out@), u, score_rank_fn()),
            },
    {
        let ghost iv = items_view(items@);
        let mut found: Vec<SearchResult> = Vec::new();
        let mut keys: Vec<i128> = Vec::new();
        let mut i: usize = 0;
        assert(iv.take(0) =~= Seq::<ItemView>::empty());
        while i < items.len()
            invariant
                iv == items_view(items@),
                i <= items@.len(),
                fuzzy_matches(query@, iv.take(i as int)) == Some(results_view(found@)),
                found@.len() == keys@.len(),
                forall|j: int| 0 <= j < found@.len() ==> keys@[j] as int == score_rank(found@[j]@),
            decreases items@.len() - i,
        {
            assert(iv.take(i + 1).drop_last() =~= iv.take(i as int));
            assert(iv.take(i + 1).last() == items@[i as int]@);
            match fuzzy_title_match_exec(items[i].title.as_str(), query) {
                None => {
                    proof { lemma_fuzzy_prefix_fail(query@, iv, i + 1); }
                    return None;
                },
                Some(None) => {},
                Some(Some((score, ranges))) => {
                    found.push(SearchResult { item: items[i].duplicate(), score: Some(score), ranges });
                    keys.push(score as i128);
                    assert(results_view(found@) =~= fuzzy_matches(query@, iv.take(i + 1))->0);
                },
            }
            i = i + 1;
        }
        assert(iv.take(items@.len() as int) =~= iv);
        let ghost unsorted = found@;
        let ghost rank_exec = |x: SearchResult| score_rank_fn()((|y: SearchResult| y@)(x));
        let sorted = stable_sort_by_keys(found, keys, Ghost(rank_exec));
        proof {
            lemma_stable_sort_map(sorted@, unsorted, |y: SearchResult| y@, score_rank_fn());
            assert(sorted@.map_values(|y: SearchResult| y@) =~= results_view(sorted@));
            assert(unsorted.map_values(|y: SearchResult| y@) =~= results_view(unsorted));
        }
        Some(sorted)
    }

    /// The regular-expression search (see [`regexp_results`]).
    pub fn regexp_search(query: &str, items: &[ClipboardItem]) -> (out: Vec<SearchResult>)
        ensures
            results_view(out@) == regexp_results(query@, items_view(items@)),
            regex_accepts(query@) ==> forall|j: int| 0 <= j < items@.len()
                ==> regex_match_on_boundaries(query@, #[trigger] items@[j]@.title),
    {
        let ghost iv = items_view(items@);
        let p = match compile_pattern(query) {
            Some(p) => p,
            None => {
                let out: Vec<SearchResult> = Vec::new();
                assert(results_view(out@) =~= Seq::<SearchResultView>::empty());
                return out;
            },
        };
        let mut out: Vec<SearchResult> = Vec::new();
        let mut i: usize = 0;
        assert(iv.take(0) =~= Seq::<ItemView>::empty());
        assert(results_view(out@) =~= Seq::<SearchResultView>::empty());
        while i < items.len()
            invariant
                iv == items_view(items@),
                i <= items@.len(),
                p.source() == query@,
                regex_matches(query@, iv.take(i as int)) == results_view(out@),
                forall|j: int| 0 <= j < i ==> regex_match_on_boundaries(query@, #[trigger] items@[j]@.title),
            decreases items@.len() - i,
        {
            assert(iv.take(i + 1).drop_last() =~= iv.take(i as int));
            assert(iv.take(i + 1).last() == items@[i as int]@);
            match regex_title_match_exec(&p, items[i].title.as_str()) {
                None => {},
                Some(m) => {
                    let ghost mv = m@;
                    let ranges = vec![m];
                    assert(ranges_view(ranges@) =~= seq![mv]);
                    out.push(SearchResult { item: items[i].duplicate(), score: None, ranges });
                    assert(results_view(out@) =~= regex_matches(query@, iv.take(i + 1)));
                },
            }
            i = i + 1;
        }
        assert(iv.take(items@.len() as int) =~= iv);
        out
    }

    /// The mixed search: the exact results when there are any, else the
    /// regular-expression results when there are any, else the fuzzy ones.
    pub fn mixed_search(query: &str, items: &[ClipboardItem]) -> (r: Option<Vec<SearchResult>>)
        ensures
            if exact_results(query@, items_view(items@)).len() > 0 {
                r matches Some(out) && results_view(out@) == exact_results(query@, items_view(items@))
            } else if regexp_results(query@, items_view(items@)).len() > 0 {
                r matches Some(out) && results_view(out@) == regexp_results(query@, items_view(items@))
            } else {
                match fuzzy_matches(query@, items_view(items@)) {
                    None => r is None,
                    Some(u) => r matches Some(out) && is_stable_sort(results_view(out@), u, score_rank_fn()),
                }
            },
            ascii_lowercase_known(query@, items_view(items@)),
    {
        let results = Self::exact_search(query, items);
        if results.len() > 0 {
            return Some(results);
        }
        let results = Self::regexp_search(query, items);
        if results.len() > 0 {
            return Some(results);
        }
        Self::fuzzy_search(query, items)
    }

    fn search_impl(query: &str, items: &[ClipboardItem], mode: SearchMode) -> (r: Option<Vec<SearchResult>>)
        ensures
            match r {
                None => search_fails(query@, items_view(items@), mode),
                Some(out) => !search_fails(query@, items_view(items@), mode)
                    && search_result(query@, items_view(items@), mode, results_view(out@)),
            },
            query@.len() > 0 && (mode is Exact || mode is Mixed) ==> ascii_lowercase_known(query@, items_view(items@)),
    {
        let ghost iv = items_view(items@);
        if query.is_empty() {
            let mut out: Vec<SearchResult> = Vec::new();
            let mut i: usize = 0;
            while i < items.len()
                invariant
                    iv == items_view(items@),
                    i <= items@.len(),
                    results_view(out@) == all_results(iv.take(i as int)),
                    out@.len() == i,
                decreases items@.len() - i,
            {
                let rs: Vec<MatchRange> = Vec::new();
                assert(ranges_view(rs@) =~= Seq::<(i64, i64)>::empty());
                let ghost before = out@;
                out.push(SearchResult { item: items[i].duplicate(), score: None, ranges: rs });
                assert forall|j: int| 0 <= j < out@.len() implies #[trigger] results_view(out@)[j] == all_results(iv.take(i + 1))[j] by {
                    if j < i {
                        assert(results_view(before)[j] == all_results(iv.take(i as int))[j]);
                        assert(out@[j] == before[j]);
                    }
                }
                assert(results_view(out@) =~= all_results(iv.take(i + 1)));
                i = i + 1;
            }
            assert(iv.take(items@.len() as int) =~= iv);
            return Some(out);
        }
        match mode {
            SearchMode::Exact => Some(Self::exact_search(query, items)),
            SearchMode::Fuzzy => Self::fuzzy_search(query, items),
            SearchMode::Regexp => Some(Self::regexp_search(query, items)),
            SearchMode::Mixed => Self::mixed_search(query, items),
        }
    }

    /// Search `items` for `query` in the given mode (see [`search_result`]).
    /// An empty query returns every item. A fuzzy search (alone, or as the
    /// last resort of a mixed one) requires that the matcher's byte limit
    /// falls on a character boundary of each long title (see
    /// [`search_fails`]); [`SearchEngine::search_checked`] checks that first.
    pub fn search(query: &str, items: &[ClipboardItem], mode: SearchMode) -> (results: Vec<SearchResult>)
        requires
            !search_fails(query@, items_view(items@), mode),
        ensures
            search_result(query@, items_view(items@), mode, results_view(results@)),
            query@.len() > 0 && (mode is Exact || mode is Mixed) ==> ascii_lowercase_known(query@, items_view(items@)),
    {
        match Self::search_impl(query, items, mode) {
            Some(v) => v,
            None => Vec::new(),
        }
    }

    /// Like [`SearchEngine::search`], for any input: `None` exactly when the
    /// search cannot complete.
    pub fn search_checked(query: &str, items: &[ClipboardItem], mode: SearchMode) -> (results: Option<Vec<SearchResult>>)
        ensures
            match results {
                None => search_fails(query@, items_view(items@), mode),
                Some(v) => !search_fails(query@, items_view(items@), mode)
                    && search_result(query@, items_view(items@), mode, results_view(v@)),
            },
            query@.len() > 0 && (mode is Exact || mode is Mixed) ==> ascii_lowercase_known(query@, items_view(items@)),
    {
        Self::search_impl(query, items, mode)
    }
}

/// The items that a list of results reports.
pub open spec fn result_items(out: Seq<SearchResultView>) -> Seq<ItemView> {
    out.map_values(|r: SearchResultView| r.item)
}

/// The title of `it` contains `query`, case ignored: the lowercased title
/// contains the lowercased query.
pub open spec fn title_contains(query: Seq<char>) -> spec_fn(ItemView) -> bool {
    |it: ItemView| find_from(lowercase(it.title), lowercase(query), 0) is Some
}

/// The regular expression `query` matches the title of `it`.
pub open spec fn title_matches(query: Seq<char>) -> spec_fn(ItemView) -> bool {
    |it: ItemView| regex_first_match(query, it.title) is Some
}

/// The exact search reports exactly the items whose title contains the
/// query (case ignored), in their order, each once and unscored; the range of
/// each is a character range of the title, made of the characters whose
/// lowercase forms hold the first occurrence of the lowercased query.
pub proof fn law_exact_search_finds(query: Seq<char>, items: Seq<ItemView>)
    ensures
        result_items(exact_results(query, items)) == items.filter(title_contains(query)),
        forall|k: int| 0 <= k < exact_results(query, items).len() ==> {
            let r = #[trigger] exact_results(query, items)[k];
            &&& r.score is None
            &&& find_from(lowercase(r.item.title), lowercase(query), 0) matches Some(i)
            &&& 0 <= cover(r.item.title, i) <= cover(r.item.title, i + lowercase(query).len()) <= r.item.title.len()
            &&& r.ranges == seq![(cover(r.item.title, i) as i64, cover(r.item.title, i + lowercase(query).len()) as i64)]
        },
    decreases items.len(),
{
    reveal(Seq::filter);
    if items.len() > 0 {
        let rest = items.drop_last();
        law_exact_search_finds(query, rest);
        let r = exact_results(query, rest);
        let out = exact_results(query, items);
        match find_from(lowercase(items.last().title), lowercase(query), 0) {
            Some(i) => {
                lemma_exact_range(items.last().title, query);
                assert(result_items(out) =~= result_items(r).push(items.last()));
            },
            None => {
                assert(out == r);
            },
        }
    } else {
        assert(result_items(Seq::<SearchResultView>::empty()) =~= Seq::<ItemView>::empty());
    }
}

/// What the search learns of lowercase forms: an ASCII query and each ASCII
/// title lowercase as ASCII does.
pub open spec fn ascii_lowercase_known(query: Seq<char>, items: Seq<ItemView>) -> bool {
    &&& all_ascii(query) ==> lowercase(query) == ascii_lower(query)
    &&& forall|j: int| 0 <= j < items.len() && all_ascii(#[trigger] items[j].title)
        ==> lowercase(items[j].title) == ascii_lower(items[j].title)
}

proof fn lemma_prefix_fold_ascii(t: Seq<char>, k: int)
    requires
        all_ascii(t),
        0 <= k <= t.len(),
    ensures
        prefix_fold_len(t, k) == k,
    decreases k,
{
    if k > 0 {
        lemma_prefix_fold_ascii(t, k - 1);
        assert(is_ascii_char(t[k - 1]));
    }
}

proof fn lemma_cover_ascii(t: Seq<char>, x: int, k: int)
    requires
        all_ascii(t),
        0 <= k <= x <= t.len(),
    ensures
        cover_from(t, x, k) == x,
    decreases x - k,
{
    lemma_prefix_fold_ascii(t, k);
    if k < x {
        lemma_cover_ascii(t, x, k + 1);
    }
}

/// Exact search on ASCII text is ASCII-case-insensitive substring search: an
/// ASCII title whose lowercase form the search knows (as
/// [`SearchEngine::search`] states it) matches an ASCII query exactly when its
/// ASCII lowercase holds the query's ASCII lowercase, and the range is the
/// character range of the first such occurrence.
pub proof fn law_exact_search_ascii(title: Seq<char>, query: Seq<char>)
    requires
        all_ascii(title),
        all_ascii(query),
        lowercase(title) == ascii_lower(title),
        lowercase(query) == ascii_lower(query),
    ensures
        exact_title_match(title, query) == match find_from(ascii_lower(title), ascii_lower(query), 0) {
            Some(i) => Some((i as i64, (i + query.len()) as i64)),
            None => None,
        },
{
    match find_from(ascii_lower(title), ascii_lower(query), 0) {
        Some(i) => {
            lemma_find_from(ascii_lower(title), ascii_lower(query), 0);
            lemma_cover_ascii(title, i, 0);
            lemma_cover_ascii(title, i + query.len(), 0);
        },
        None => {},
    }
}

/// Mixed search falls through: its results are the exact search's when
/// there are any, else the regular-expression search's when there are any,
/// else the fuzzy search's.
pub proof fn law_mixed_falls_through(query: Seq<char>, items: Seq<ItemView>, out: Seq<SearchResultView>)
    requires
        query.len() > 0,
        search_result(query, items, SearchMode::Mixed, out),
    ensures
        exact_results(query, items).len() > 0 ==> search_result(query, items, SearchMode::Exact, out),
        exact_results(query, items).len() == 0 && regexp_results(query, items).len() > 0
            ==> search_result(query, items, SearchMode::Regexp, out),
        exact_results(query, items).len() == 0 && regexp_results(query, items).len() == 0
            ==> search_result(query, items, SearchMode::Fuzzy, out),
{
}

/// The regular-expression search reports exactly the items whose title the
/// pattern matches, in their order, unscored; an invalid pattern reports none.
pub proof fn law_regexp_search_finds(query: Seq<char>, items: Seq<ItemView>)
    ensures
        regex_accepts(query) ==> result_items(regexp_results(query, items)) == items.filter(title_matches(query)),
        !regex_accepts(query) ==> regexp_results(query, items).len() == 0,
        forall|k: int| 0 <= k < regexp_results(query, items).len()
            ==> (#[trigger] regexp_results(query, items)[k]).score is None,
{
    lemma_regex_matches(query, items);
}

proof fn lemma_regex_matches(query: Seq<char>, items: Seq<ItemView>)
    ensures
        result_items(regex_matches(query, items)) == items.filter(title_matches(query)),
        forall|k: int| 0 <= k < regex_matches(query, items).len()
            ==> (#[trigger] regex_matches(query, items)[k]).score is None,
    decreases items.len(),
{
    reveal(Seq::filter);
    if items.len() > 0 {
        let rest = items.drop_last();
        lemma_regex_matches(query, rest);
        let r = regex_matches(query, rest);
        match regex_title_match(query, items.last().title) {
            Some(rg) => {
                assert(result_items(regex_matches(query, items)) =~= result_items(r).push(items.last()));
            },
            None => {},
        }
    } else {
        assert(result_items(Seq::<SearchResultView>::empty()) =~= Seq::<ItemView>::empty());
    }
}

/// An empty query reports every item, in order, unscored and without ranges.
pub proof fn law_empty_query_all(items: Seq<ItemView>, mode: SearchMode, out: Seq<SearchResultView>)
    requires
        search_result(Seq::empty(), items, mode, out),
    ensures
        result_items(out) == items,
        out.len() == items.len(),
        forall|k: int| 0 <= k < out.len() ==> (#[trigger] out[k]).score is None && out[k].ranges.len() == 0,
{
    assert(result_items(out) =~= items);
}

/// The character range that a regular-expression match is reported with,
/// and the byte offsets `(s, e)` of the match itself.
pub open spec fn regex_range_names_match(query: Seq<char>, title: Seq<char>, rg: (i64, i64)) -> bool {
    regex_first_match(query, title) matches Some((s, e)) && {
        let (a, b) = rg;
        &&& 0 <= a <= b <= title.len()
        &&& byte_len(title.take(a as int)) == s
        &&& byte_len(title.take(b as int)) == e
    }
}

/// A regular-expression match is reported as a character range of the
/// title: it lies within the title's characters, and the characters before
/// its start and before its end have exactly as many bytes as the match's
/// start and end offsets, so that the range holds exactly the matched text.
pub proof fn law_regex_range(query: Seq<char>, title: Seq<char>)
    requires
        regex_match_on_boundaries(query, title),
        title.len() <= i64::MAX,
    ensures
        regex_title_match(query, title) matches Some(rg) ==> regex_range_names_match(query, title, rg),
        regex_title_match(query, title) is Some <==> regex_first_match(query, title) is Some,
{
    match regex_first_match(query, title) {
        Some((s, e)) => {
            lemma_char_index_from(title, s, 0);
            lemma_char_index_from(title, e, 0);
            let a = char_index_of_byte(title, s)->0;
            let b = char_index_of_byte(title, e)->0;
            if a > b {
                lemma_byte_len_prefix_lt(title, b, a);
            }
        },
        None => {},
    }
}

/// Every range that the regular-expression search reports names the
/// title's matched characters (see [`law_regex_range`]), for the matches that
/// [`SearchEngine::regexp_search`] states fall on character boundaries.
pub proof fn law_regexp_search_ranges(query: Seq<char>, items: Seq<ItemView>)
    requires
        forall|j: int| 0 <= j < items.len() ==> regex_match_on_boundaries(query, #[trigger] items[j].title),
        forall|j: int| 0 <= j < items.len() ==> (#[trigger] items[j]).title.len() <= i64::MAX,
    ensures
        forall|k: int| 0 <= k < regexp_results(query, items).len() ==> {
            let r = #[trigger] regexp_results(query, items)[k];
            &&& r.ranges.len() == 1
            &&& regex_range_names_match(query, r.item.title, r.ranges[0])
        },
    decreases items.len(),
{
    if regex_accepts(query) && items.len() > 0 {
        let rest = items.drop_last();
        assert forall|j: int| 0 <= j < rest.len() implies regex_match_on_boundaries(query, #[trigger] rest[j].title) by {
            assert(rest[j] == items[j]);
        }
        assert forall|j: int| 0 <= j < rest.len() implies (#[trigger] rest[j]).title.len() <= i64::MAX by {
            assert(rest[j] == items[j]);
        }
        law_regexp_search_ranges(query, rest);
        let last = items.last();
        assert(regex_match_on_boundaries(query, items[items.len() - 1].title));
        law_regex_range(query, last.title);
    }
}

} // verus!
