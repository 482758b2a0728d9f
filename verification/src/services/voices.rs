//! `voices.json`: producers and shows, images resolved against the content base,
//! `actionLabel` fallback.
use vstd::prelude::*;

use crate::content::{
    resolve_spec, ContentImage, ProducerProfile, ProducerProfileView, StationShow,
    StationShowView,
};
use crate::json::{get, json_document, json_get, parse_json, Json};
use crate::services::news::{string_field, string_field_exec};
use crate::text::{chars_of, eq_ignore_ascii_case, eq_ignore_ascii_case_chars, string_from_chars};

verus! {

/// Parsed voices.
#[derive(Debug, Clone)]
pub struct Voices {
    pub producers: Vec<ProducerProfile>,
    pub shows: Vec<StationShow>,
}

/// An optional string member: `None` when blank.
pub open spec fn optional(value: Json, key: Seq<char>) -> Option<Seq<char>> {
    if string_field(value, key).len() > 0 {
        Some(string_field(value, key))
    } else {
        None
    }
}

fn optional_exec(value: &Json, key: &str) -> (r: Option<String>)
    ensures
        crate::content::opt_view(r) == optional(*value, key@),
{
    let s = string_field_exec(value, key);
    if s.len() > 0 {
        Some(string_from_chars(s.as_slice()))
    } else {
        None
    }
}

/// A producer: rejected without a name; image resolved against `base_url` (fill).
pub open spec fn parse_producer_spec(value: Json, base_url: Seq<char>) -> Option<ProducerProfileView> {
    let name = string_field(value, "name"@);
    if name.len() == 0 {
        None
    } else {
        Some(
            ProducerProfileView {
                name,
                role: string_field(value, "role"@),
                bio: string_field(value, "bio"@),
                image: resolve_spec(string_field(value, "image"@), base_url, false),
                href: optional(value, "href"@),
            },
        )
    }
}

fn parse_producer(value: &Json, base_url: &str) -> (r: Option<ProducerProfile>)
    ensures
        r is Some <==> parse_producer_spec(*value, base_url@) is Some,
        r matches Some(p) ==> parse_producer_spec(*value, base_url@) == Some(p@),
{
    let name = string_field_exec(value, "name");
    if name.len() == 0 {
        return None;
    }
    let role = string_field_exec(value, "role");
    let bio = string_field_exec(value, "bio");
    let image = string_field_exec(value, "image");
    let image_s = string_from_chars(image.as_slice());
    Some(
        ProducerProfile {
            name: string_from_chars(name.as_slice()),
            role: string_from_chars(role.as_slice()),
            bio: string_from_chars(bio.as_slice()),
            image: ContentImage::resolve(image_s.as_str(), base_url, false),
            href: optional_exec(value, "href"),
        },
    )
}

/// The action label of a show: the given one, else « Découvrir » with a link, else
/// « En rotation sur la radio ».
pub open spec fn action_label_spec(given: Seq<char>, has_href: bool) -> Seq<char> {
    if given.len() > 0 {
        given
    } else if has_href {
        "Découvrir"@
    } else {
        "En rotation sur la radio"@
    }
}

/// A show: rejected without a title; `imageFit == "contain"` (ASCII case-insensitive)
/// selects *fit*; label fallback.
pub open spec fn parse_show_spec(value: Json, base_url: Seq<char>) -> Option<StationShowView> {
    let title = string_field(value, "title"@);
    if title.len() == 0 {
        None
    } else {
        let href = optional(value, "href"@);
        let fit_contain = eq_ignore_ascii_case(string_field(value, "imageFit"@), "contain"@);
        Some(
            StationShowView {
                title,
                meta: string_field(value, "meta"@),
                text: string_field(value, "text"@),
                image: resolve_spec(string_field(value, "image"@), base_url, fit_contain),
                href,
                action_label: action_label_spec(string_field(value, "actionLabel"@), href is Some),
            },
        )
    }
}

fn parse_show(value: &Json, base_url: &str) -> (r: Option<StationShow>)
    ensures
        r is Some <==> parse_show_spec(*value, base_url@) is Some,
        r matches Some(s) ==> parse_show_spec(*value, base_url@) == Some(s@),
{
    let title = string_field_exec(value, "title");
    if title.len() == 0 {
        return None;
    }
    let href = optional_exec(value, "href");
    let fit = string_field_exec(value, "imageFit");
    let contain = chars_of("contain");
    let fit_contain = eq_ignore_ascii_case_chars(fit.as_slice(), contain.as_slice());

    // actionLabel fallback: given when present; else « Découvrir » (href) / « En rotation… ».
    let given = string_field_exec(value, "actionLabel");
    let action_label = if given.len() > 0 {
        string_from_chars(given.as_slice())
    } else if href.is_some() {
        string_from_chars(chars_of("Découvrir").as_slice())
    } else {
        string_from_chars(chars_of("En rotation sur la radio").as_slice())
    };
    let meta = string_field_exec(value, "meta");
    let text = string_field_exec(value, "text");
    let image = string_field_exec(value, "image");
    let image_s = string_from_chars(image.as_slice());
    Some(
        StationShow {
            title: string_from_chars(title.as_slice()),
            meta: string_from_chars(meta.as_slice()),
            text: string_from_chars(text.as_slice()),
            image: ContentImage::resolve(image_s.as_str(), base_url, fit_contain),
            href,
            action_label,
        },
    )
}

/// The array member `key` (empty when absent or not an array).
pub open spec fn array_of(root: Json, key: Seq<char>) -> Seq<Json> {
    match get(root, key) {
        Some(Json::Array(a)) => a@,
        _ => seq![],
    }
}

/// Producers kept, in order.
pub open spec fn producers_of(items: Seq<Json>, base_url: Seq<char>) -> Seq<ProducerProfileView>
    decreases items.len(),
{
    if items.len() == 0 {
        seq![]
    } else {
        match parse_producer_spec(items.last(), base_url) {
            Some(p) => producers_of(items.drop_last(), base_url).push(p),
            None => producers_of(items.drop_last(), base_url),
        }
    }
}

/// Shows kept, in order.
pub open spec fn shows_of(items: Seq<Json>, base_url: Seq<char>) -> Seq<StationShowView>
    decreases items.len(),
{
    if items.len() == 0 {
        seq![]
    } else {
        match parse_show_spec(items.last(), base_url) {
            Some(s) => shows_of(items.drop_last(), base_url).push(s),
            None => shows_of(items.drop_last(), base_url),
        }
    }
}

fn parse_producers(root: &Json, base_url: &str) -> (r: Vec<ProducerProfile>)
    ensures
        r.deep_view() == producers_of(array_of(*root, "producers"@), base_url@),
{
    let mut out: Vec<ProducerProfile> = Vec::new();
    match json_get(root, "producers") {
        Some(Json::Array(items)) => {
            let ghost all = items@;
            assert(all.take(0) =~= Seq::<Json>::empty());
            assert(out.deep_view() =~= Seq::<ProducerProfileView>::empty());
            let mut i: usize = 0;
            while i < items.len()
                invariant
                    i <= items@.len(),
                    all == items@,
                    out.deep_view() == producers_of(all.take(i as int), base_url@),
                decreases items@.len() - i,
            {
                assert(all.take(i + 1).drop_last() == all.take(i as int));
                assert(all.take(i + 1).last() == all[i as int]);
                if let Some(p) = parse_producer(&items[i], base_url) {
                    let ghost before = out.deep_view();
                    out.push(p);
                    assert(out.deep_view() =~= before.push(p@));
                }
                i += 1;
            }
            assert(all.take(items@.len() as int) == all);
        },
        _ => {},
    }
    out
}

fn parse_shows(root: &Json, base_url: &str) -> (r: Vec<StationShow>)
    ensures
        r.deep_view() == shows_of(array_of(*root, "shows"@), base_url@),
{
    let mut out: Vec<StationShow> = Vec::new();
    match json_get(root, "shows") {
        Some(Json::Array(items)) => {
            let ghost all = items@;
            assert(all.take(0) =~= Seq::<Json>::empty());
            assert(out.deep_view() =~= Seq::<StationShowView>::empty());
            let mut i: usize = 0;
            while i < items.len()
                invariant
                    i <= items@.len(),
                    all == items@,
                    out.deep_view() == shows_of(all.take(i as int), base_url@),
                decreases items@.len() - i,
            {
                assert(all.take(i + 1).drop_last() == all.take(i as int));
                assert(all.take(i + 1).last() == all[i as int]);
                if let Some(s) = parse_show(&items[i], base_url) {
                    let ghost before = out.deep_view();
                    out.push(s);
                    assert(out.deep_view() =~= before.push(s@));
                }
                i += 1;
            }
            assert(all.take(items@.len() as int) == all);
        },
        _ => {},
    }
    out
}

/// Reads a parsed payload; `base_url` is the current content base (relative images are
/// resolved against it).
pub fn parse_value(root: &Json, base_url: &str) -> (r: Voices)
    ensures
        r.producers.deep_view() == producers_of(array_of(*root, "producers"@), base_url@),
        r.shows.deep_view() == shows_of(array_of(*root, "shows"@), base_url@),
{
    Voices { producers: parse_producers(root, base_url), shows: parse_shows(root, base_url) }
}

/// Parses `voices.json` (no producers and no shows for a text that is not JSON).
pub fn parse(data: &str, base_url: &str) -> (r: Voices)
    ensures
        json_document(data@) matches Some(root) ==> r.producers.deep_view() == producers_of(
            array_of(root, "producers"@),
            base_url@,
        ) && r.shows.deep_view() == shows_of(array_of(root, "shows"@), base_url@),
        json_document(data@) is None ==> r.producers.len() == 0 && r.shows.len() == 0,
{
    match parse_json(data) {
        Some(root) => parse_value(&root, base_url),
        None => Voices { producers: Vec::new(), shows: Vec::new() },
    }
}

} // verus!
