//! `news.json`: `items[]` (or `entries[]`), raw text fields (HTML ignored), items with an
//! empty title dropped, sorted by `sortKey`, newest first.
use vstd::prelude::*;

use crate::content::{NewsEntry, NewsEntryView};
use crate::json::{get, json_document, json_get, parse_json, Json};
use crate::sorting::{insert_by, insert_position, lemma_insert_by_splice, stable_sort_by};
use crate::text::{
    chars_lt, chars_of, lemma_seq_lt_irreflexive, lemma_seq_lt_total, lemma_seq_lt_transitive,
    push_all, seq_lt, string_from_chars, trim, trim_str,
};

verus! {

/// A string member, trimmed (empty when absent or not a string).
pub open spec fn string_field(value: Json, key: Seq<char>) -> Seq<char> {
    match get(value, key) {
        Some(Json::Str(s)) => trim(s@),
        _ => seq![],
    }
}

pub(crate) fn string_field_exec(value: &Json, key: &str) -> (r: Vec<char>)
    ensures
        r@ == string_field(*value, key@),
{
    match json_get(value, key) {
        Some(Json::Str(s)) => trim_str(s.as_str()),
        _ => Vec::new(),
    }
}

/// The first of two string members that is not empty (empty when neither is).
pub open spec fn first_non_empty(value: Json, k1: Seq<char>, k2: Seq<char>) -> Seq<char> {
    if string_field(value, k1).len() > 0 {
        string_field(value, k1)
    } else {
        string_field(value, k2)
    }
}

fn first_non_empty_exec(value: &Json, k1: &str, k2: &str) -> (r: Vec<char>)
    ensures
        r@ == first_non_empty(*value, k1@, k2@),
{
    let a = string_field_exec(value, k1);
    if a.len() > 0 {
        a
    } else {
        string_field_exec(value, k2)
    }
}

/// One item: dropped when its title is empty; `id` (else `slug`, else `sortKey + title`),
/// `sortKey` (else `publishedOn`), `dateLabel` (else `publishedOn`), `lead`, `body`.
pub open spec fn parse_item_spec(value: Json) -> Option<NewsEntryView> {
    let title = string_field(value, "title"@);
    if title.len() == 0 {
        None
    } else {
        let id = first_non_empty(value, "id"@, "slug"@);
        let sort_key = first_non_empty(value, "sortKey"@, "publishedOn"@);
        Some(
            NewsEntryView {
                stable_id: if id.len() == 0 {
                    sort_key + title
                } else {
                    id
                },
                title,
                sort_key,
                date_label: first_non_empty(value, "dateLabel"@, "publishedOn"@),
                lead: string_field(value, "lead"@),
                body: string_field(value, "body"@),
            },
        )
    }
}

fn parse_item(value: &Json) -> (r: Option<NewsEntry>)
    ensures
        r is Some <==> parse_item_spec(*value) is Some,
        r matches Some(e) ==> parse_item_spec(*value) == Some(e@),
{
    let title = string_field_exec(value, "title");
    if title.len() == 0 {
        return None;
    }
    let id = first_non_empty_exec(value, "id", "slug");
    let sort_key = first_non_empty_exec(value, "sortKey", "publishedOn");
    let date_label = first_non_empty_exec(value, "dateLabel", "publishedOn");
    let lead = string_field_exec(value, "lead");
    let body = string_field_exec(value, "body");
    let stable_id = if id.len() == 0 {
        let mut s = sort_key.clone();
        push_all(&mut s, title.as_slice());
        s
    } else {
        id
    };
    Some(
        NewsEntry {
            stable_id: string_from_chars(stable_id.as_slice()),
            title: string_from_chars(title.as_slice()),
            sort_key: string_from_chars(sort_key.as_slice()),
            date_label: string_from_chars(date_label.as_slice()),
            lead: string_from_chars(lead.as_slice()),
            body: string_from_chars(body.as_slice()),
        },
    )
}

/// Items kept, in input order.
pub open spec fn entries_of(items: Seq<Json>) -> Seq<NewsEntryView>
    decreases items.len(),
{
    if items.len() == 0 {
        seq![]
    } else {
        match parse_item_spec(items.last()) {
            Some(e) => entries_of(items.drop_last()).push(e),
            None => entries_of(items.drop_last()),
        }
    }
}

/// Newest first: an item precedes another when its `sortKey` is greater.
pub open spec fn newer(x: NewsEntryView, y: NewsEntryView) -> bool {
    seq_lt(y.sort_key, x.sort_key)
}

/// The `newer` relation as a value.
pub open spec fn newer_rel() -> spec_fn(NewsEntryView, NewsEntryView) -> bool {
    |x: NewsEntryView, y: NewsEntryView| newer(x, y)
}

/// `newer` is a strict weak order (the stable sort by it is ordered).
pub proof fn lemma_newer_is_strict_weak_order()
    ensures
        crate::sorting::strict_weak_order(newer_rel()),
{
    let before = newer_rel();
    assert forall|x: NewsEntryView| !#[trigger] before(x, x) by {
        lemma_seq_lt_irreflexive(x.sort_key);
    }
    assert forall|x: NewsEntryView, y: NewsEntryView, z: NewsEntryView|
        #[trigger] before(x, y) && #[trigger] before(y, z) implies before(x, z) by {
        lemma_seq_lt_transitive(z.sort_key, y.sort_key, x.sort_key);
    }
    assert forall|x: NewsEntryView, y: NewsEntryView, z: NewsEntryView|
        !#[trigger] before(y, x) && !#[trigger] before(z, y) implies !before(z, x) by {
        lemma_seq_lt_total(x.sort_key, y.sort_key);
        if seq_lt(x.sort_key, z.sort_key) {
            if x.sort_key != y.sort_key {
                lemma_seq_lt_transitive(y.sort_key, x.sort_key, z.sort_key);
            }
        }
    }
}

/// The member list of the payload: `items`, else `entries`; `None` unless it is an array.
pub open spec fn items_of(root: Json) -> Option<Seq<Json>> {
    let v = match get(root, "items"@) {
        Some(x) => Some(x),
        None => get(root, "entries"@),
    };
    match v {
        Some(Json::Array(a)) => Some(a@),
        _ => None,
    }
}

/// What `parse_value` returns: the kept items, sorted by `sortKey`, newest first.
pub open spec fn parse_value_spec(root: Json) -> Seq<NewsEntryView> {
    match items_of(root) {
        Some(items) => stable_sort_by(entries_of(items), newer_rel()),
        None => seq![],
    }
}

fn insert_newest_first(v: &mut Vec<NewsEntry>, x: NewsEntry)
    ensures
        final(v).deep_view() == insert_by(
            old(v).deep_view(),
            x@,
            newer_rel(),
        ),
{
    let ghost before = newer_rel();
    let ghost s = v.deep_view();
    let xk = chars_of(x.sort_key.as_str());
    let mut p: usize = 0;
    loop
        invariant
            p <= v.len(),
            s == v.deep_view(),
            before == newer_rel(),
            xk@ == x.sort_key@,
            insert_position(s, x@, before, 0) == insert_position(s, x@, before, p as int),
        ensures
            p <= v.len(),
            insert_position(s, x@, before, 0) == p,
        decreases v.len() - p,
    {
        if p == v.len() {
            break;
        }
        let yk = chars_of(v[p].sort_key.as_str());
        assert(s[p as int] == v[p as int]@);
        if chars_lt(yk.as_slice(), xk.as_slice()) {
            break;
        }
        p += 1;
    }
    proof {
        lemma_insert_by_splice(s, x@, before);
    }
    v.insert(p, x);
    assert(v.deep_view() =~= s.subrange(0, p as int) + seq![x@] + s.subrange(p as int, s.len() as int));
}

/// Reads a parsed payload.
#[verifier::loop_isolation(false)]
pub fn parse_value(root: &Json) -> (r: Vec<NewsEntry>)
    ensures
        r.deep_view() == parse_value_spec(*root),
{
    let listed = match json_get(root, "items") {
        Some(x) => Some(x),
        None => json_get(root, "entries"),
    };
    let items = match listed {
        Some(Json::Array(a)) => a,
        _ => return Vec::new(),
    };
    let ghost all = items@;
    let mut sorted: Vec<NewsEntry> = Vec::new();
    let mut i: usize = 0;
    assert(all.take(0) =~= Seq::<Json>::empty());
    assert(sorted.deep_view() =~= Seq::<NewsEntryView>::empty());
    while i < items.len()
        invariant
            i <= items@.len(),
            all == items@,
            sorted.deep_view() == stable_sort_by(
                entries_of(all.take(i as int)),
                newer_rel(),
            ),
        decreases items@.len() - i,
    {
        assert(all.take(i + 1).drop_last() == all.take(i as int));
        assert(all.take(i + 1).last() == all[i as int]);
        let ghost prev = entries_of(all.take(i as int));
        if let Some(e) = parse_item(&items[i]) {
            assert(entries_of(all.take(i + 1)) == prev.push(e@));
            assert(prev.push(e@).drop_last() == prev);
            insert_newest_first(&mut sorted, e);
        }
        i += 1;
    }
    assert(all.take(items@.len() as int) == all);
    sorted
}

proof fn lemma_entries_have_titles(items: Seq<Json>)
    ensures
        forall|i: int| 0 <= i < entries_of(items).len() ==> (#[trigger] entries_of(items)[i]).title.len() > 0,
    decreases items.len(),
{
    if items.len() > 0 {
        lemma_entries_have_titles(items.drop_last());
        let prev = entries_of(items.drop_last());
        let all = entries_of(items);
        assert forall|i: int| 0 <= i < all.len() implies (#[trigger] all[i]).title.len() > 0 by {
            if i < prev.len() {
                assert(all[i] == prev[i]);
            }
        }
    }
}

/// News come newest first (by decreasing `sortKey`); they are exactly the items of the
/// payload that have a title, each once, so no item without a title is shown.
pub proof fn news_newest_first_with_titles(root: Json)
    ensures
        crate::sorting::sorted_by(parse_value_spec(root), newer_rel()),
        forall|i: int| 0 <= i < parse_value_spec(root).len() ==> (#[trigger] parse_value_spec(root)[i]).title.len() > 0,
        items_of(root) matches Some(items) ==> parse_value_spec(root).to_multiset()
            == entries_of(items).to_multiset(),
{
    lemma_newer_is_strict_weak_order();
    if let Some(items) = items_of(root) {
        crate::sorting::lemma_stable_sort_by(entries_of(items), newer_rel());
        lemma_entries_have_titles(items);
        let r = parse_value_spec(root);
        assert forall|i: int| 0 <= i < r.len() implies (#[trigger] r[i]).title.len() > 0 by {
            assert(r.to_multiset().count(r[i]) > 0) by {
                vstd::seq_lib::lemma_seq_contains_after_push(r, r[i], r[i]);
                r.to_multiset_ensures();
                assert(r.contains(r[i]));
            }
            entries_of(items).to_multiset_ensures();
            assert(entries_of(items).contains(r[i]));
        }
    } else {
        assert(parse_value_spec(root) =~= Seq::<NewsEntryView>::empty());
    }
}

/// Whether `e` shows the fields of `item` as the item gives them: title, lead and body
/// from their own fields, the key from `sortKey` (else `publishedOn`), the date label from
/// `dateLabel` (else `publishedOn`), and the id from `id` (else `slug`, else key + title).
pub open spec fn shows_item(e: NewsEntryView, item: Json) -> bool {
    &&& e.title == string_field(item, "title"@)
    &&& e.title.len() > 0
    &&& e.lead == string_field(item, "lead"@)
    &&& e.body == string_field(item, "body"@)
    &&& e.sort_key == (if string_field(item, "sortKey"@).len() > 0 {
        string_field(item, "sortKey"@)
    } else {
        string_field(item, "publishedOn"@)
    })
    &&& e.date_label == (if string_field(item, "dateLabel"@).len() > 0 {
        string_field(item, "dateLabel"@)
    } else {
        string_field(item, "publishedOn"@)
    })
    &&& e.stable_id == (if string_field(item, "id"@).len() > 0 {
        string_field(item, "id"@)
    } else if string_field(item, "slug"@).len() > 0 {
        string_field(item, "slug"@)
    } else {
        e.sort_key + e.title
    })
}

proof fn lemma_entries_show_items(items: Seq<Json>)
    ensures
        forall|i: int|
            0 <= i < entries_of(items).len() ==> exists|k: int|
                0 <= k < items.len() && shows_item(#[trigger] entries_of(items)[i], items[k]),
    decreases items.len(),
{
    if items.len() > 0 {
        let d = items.drop_last();
        lemma_entries_show_items(d);
        let prev = entries_of(d);
        let all = entries_of(items);
        assert forall|i: int| 0 <= i < all.len() implies exists|k: int|
            0 <= k < items.len() && shows_item(#[trigger] all[i], items[k]) by {
            if i < prev.len() {
                assert(all[i] == prev[i]);
                let k = choose|k: int| 0 <= k < d.len() && shows_item(prev[i], d[k]);
                assert(items[k] == d[k]);
            } else {
                assert(shows_item(all[i], items[items.len() - 1]));
            }
        }
    }
}

/// Every news item shown carries the title, the lead and the body of one item of the
/// payload, each from its own field (trimmed): the lead is the item's `lead`, the body its
/// `body`; its key, date label and id come from that same item, with their fallbacks.
pub proof fn news_fields_come_from_their_item(root: Json)
    ensures
        items_of(root) matches Some(items) ==> forall|i: int|
            0 <= i < parse_value_spec(root).len() ==> exists|k: int|
                0 <= k < items.len() && shows_item(#[trigger] parse_value_spec(root)[i], items[k]),
        items_of(root) is None ==> parse_value_spec(root).len() == 0,
{
    lemma_newer_is_strict_weak_order();
    if let Some(items) = items_of(root) {
        crate::sorting::lemma_stable_sort_by(entries_of(items), newer_rel());
        lemma_entries_show_items(items);
        let r = parse_value_spec(root);
        assert forall|i: int| 0 <= i < r.len() implies exists|k: int|
            0 <= k < items.len() && shows_item(#[trigger] r[i], items[k]) by {
            assert(r.to_multiset().count(r[i]) > 0) by {
                r.to_multiset_ensures();
                assert(r.contains(r[i]));
            }
            entries_of(items).to_multiset_ensures();
            assert(entries_of(items).contains(r[i]));
            let j = choose|j: int| 0 <= j < entries_of(items).len() && entries_of(items)[j] == r[i];
            assert(exists|k: int| 0 <= k < items.len() && shows_item(entries_of(items)[j], items[k]));
        }
    }
}

/// What `parse` returns for a text (empty for anything that is not such a payload).
pub open spec fn parse_spec(data: Seq<char>) -> Seq<NewsEntryView> {
    match json_document(data) {
        Some(root) => parse_value_spec(root),
        None => seq![],
    }
}

/// Parses `news.json`.
pub fn parse(data: &str) -> (r: Vec<NewsEntry>)
    ensures
        r.deep_view() == parse_spec(data@),
{
    match parse_json(data) {
        Some(root) => parse_value(&root),
        None => Vec::new(),
    }
}

} // verus!
