//! `current-show.json`: the show or block on air. Tolerant: object OR plain string
//! (= show name) payload, key aliases, tolerant booleans, `endcap` suffix removal.
use vstd::prelude::*;

use crate::json::{get, json_document, json_get, number_is_positive, number_text_positive, parse_json, Json};
use crate::services::now_playing::{remove_first_match, remove_first_match_exec, string_at};
use crate::text::{
    chars_eq, chars_of, decimal_int, i64_decimal, parse_i64, parse_i64_spec, push_all, push_str,
    string_from_chars, to_lowercase, trim, trim_chars, trim_str, unicode_lowercase,
};

verus! {

/// Show or block on air. `show` has already gone through the `endcap` removal.
#[derive(Debug, Clone, Default, PartialEq, Eq)]
pub struct CurrentShow {
    pub show: String,
    /// Normalised `kind` (trimmed, lower case): `music_block`, `editorial_event`, …, `live`.
    pub kind: String,
    pub is_live: bool,
    /// Start of the block (epoch seconds), 0 when absent.
    pub since: i64,
}

/// Mathematical model of `CurrentShow`.
pub struct CurrentShowView {
    pub show: Seq<char>,
    pub kind: Seq<char>,
    pub is_live: bool,
    pub since: i64,
}

impl View for CurrentShow {
    type V = CurrentShowView;

    open spec fn view(&self) -> CurrentShowView {
        CurrentShowView {
            show: self.show@,
            kind: self.kind@,
            is_live: self.is_live,
            since: self.since,
        }
    }
}

// ───────────────────────────── elapsed time ─────────────────────────────

/// « depuis X » for a block started at `since`, seen at `now`.
pub open spec fn elapsed_text_spec(since: i64, now: i64) -> Option<Seq<char>> {
    if since <= 0 {
        None
    } else {
        let seconds = now - since;
        if seconds < 60 {
            Some("depuis quelques instants"@)
        } else {
            let minutes = seconds / 60;
            if minutes < 60 {
                Some("depuis "@ + decimal_int(minutes) + " min"@)
            } else {
                let hours = minutes / 60;
                let rest = minutes % 60;
                if rest == 0 {
                    Some("depuis "@ + decimal_int(hours) + " h"@)
                } else {
                    Some("depuis "@ + decimal_int(hours) + " h "@ + decimal_int(rest))
                }
            }
        }
    }
}

impl CurrentShow {
    /// « depuis X » from `since`; `now_unix` is passed in for testability.
    pub fn elapsed_text(&self, now_unix: i64) -> (r: Option<String>)
        requires
            self.since > 0 ==> now_unix - self.since >= i64::MIN,
        ensures
            r is Some <==> elapsed_text_spec(self.since, now_unix) is Some,
            r matches Some(s) ==> elapsed_text_spec(self.since, now_unix) == Some(s@),
    {
        if self.since <= 0 {
            return None;
        }
        let seconds = now_unix - self.since;
        if seconds < 60 {
            return Some(string_from_chars(chars_of("depuis quelques instants").as_slice()));
        }
        let minutes = seconds / 60;
        let mut out: Vec<char> = Vec::new();
        push_str(&mut out, "depuis ");
        if minutes < 60 {
            let m = i64_decimal(minutes);
            push_all(&mut out, m.as_slice());
            push_str(&mut out, " min");
            return Some(string_from_chars(out.as_slice()));
        }
        let hours = minutes / 60;
        let rest = minutes % 60;
        let h = i64_decimal(hours);
        push_all(&mut out, h.as_slice());
        if rest == 0 {
            push_str(&mut out, " h");
        } else {
            push_str(&mut out, " h ");
            let r = i64_decimal(rest);
            push_all(&mut out, r.as_slice());
        }
        Some(string_from_chars(out.as_slice()))
    }
}

// ───────────────────────────── tolerant field readers ─────────────────────────────

/// First non-blank string (trimmed) or number (its text) among `keys`, from position `i`.
pub open spec fn first_string_from(value: Json, keys: Seq<&str>, i: int) -> Seq<char>
    decreases keys.len() - i,
{
    if i < 0 || i >= keys.len() {
        seq![]
    } else {
        match string_at(value, keys[i]@) {
            Some(s) => s,
            None => first_string_from(value, keys, i + 1),
        }
    }
}

fn first_string(value: &Json, keys: &[&str]) -> (r: Vec<char>)
    ensures
        r@ == first_string_from(*value, keys@, 0),
{
    let mut i: usize = 0;
    while i < keys.len()
        invariant
            i <= keys@.len(),
            first_string_from(*value, keys@, 0) == first_string_from(*value, keys@, i as int),
        decreases keys@.len() - i,
    {
        match json_get(value, keys[i]) {
            Some(Json::Str(s)) => {
                let t = trim_str(s.as_str());
                if t.len() > 0 {
                    return t;
                }
            },
            Some(Json::Number(n)) => {
                return chars_of(n.text.as_str());
            },
            _ => {},
        }
        i += 1;
    }
    Vec::new()
}

/// Integer reading of the first usable key, from position `i`: a number (`as_i64`, else
/// `as_f64` truncated) or a string holding an integer.
pub open spec fn int_at_from(value: Json, keys: Seq<&str>, i: int) -> Option<i64>
    decreases keys.len() - i,
{
    if i < 0 || i >= keys.len() {
        None
    } else {
        match get(value, keys[i]@) {
            Some(Json::Number(n)) => match n.as_i64 {
                Some(v) => Some(v),
                None => match n.as_f64_trunc {
                    Some(v) => Some(v),
                    None => int_at_from(value, keys, i + 1),
                },
            },
            Some(Json::Str(s)) => match parse_i64_spec(trim(s@)) {
                Some(v) => Some(v),
                None => int_at_from(value, keys, i + 1),
            },
            _ => int_at_from(value, keys, i + 1),
        }
    }
}

fn int_at(value: &Json, keys: &[&str]) -> (r: Option<i64>)
    ensures
        r == int_at_from(*value, keys@, 0),
{
    let mut i: usize = 0;
    while i < keys.len()
        invariant
            i <= keys@.len(),
            int_at_from(*value, keys@, 0) == int_at_from(*value, keys@, i as int),
        decreases keys@.len() - i,
    {
        match json_get(value, keys[i]) {
            Some(Json::Number(n)) => {
                if let Some(v) = n.as_i64 {
                    return Some(v);
                }
                if let Some(v) = n.as_f64_trunc {
                    return Some(v);
                }
            },
            Some(Json::Str(s)) => {
                let t = trim_str(s.as_str());
                if let Some(v) = parse_i64(t.as_slice()) {
                    return Some(v);
                }
            },
            _ => {},
        }
        i += 1;
    }
    None
}

/// Truthy words of a tolerant boolean (after trimming and lower-casing).
pub open spec fn truthy_word(s: Seq<char>) -> bool {
    s == "true"@ || s == "1"@ || s == "yes"@ || s == "oui"@
}

/// Tolerant boolean: the first key holding a boolean, a number (`> 0`) or a string
/// (`true`/`1`/`yes`/`oui`) decides; `false` when none does.
pub open spec fn bool_tolerant_from(value: Json, keys: Seq<&str>, i: int) -> bool
    decreases keys.len() - i,
{
    if i < 0 || i >= keys.len() {
        false
    } else {
        match get(value, keys[i]@) {
            Some(Json::Bool(b)) => b,
            Some(Json::Number(n)) => number_text_positive(n.text@),
            Some(Json::Str(s)) => truthy_word(unicode_lowercase(trim(s@))),
            _ => bool_tolerant_from(value, keys, i + 1),
        }
    }
}

fn is_truthy_word(s: &[char]) -> (r: bool)
    ensures
        r == truthy_word(s@),
{
    let t = chars_of("true");
    let one = chars_of("1");
    let yes = chars_of("yes");
    let oui = chars_of("oui");
    chars_eq(s, t.as_slice()) || chars_eq(s, one.as_slice()) || chars_eq(s, yes.as_slice())
        || chars_eq(s, oui.as_slice())
}

fn bool_tolerant(value: &Json, keys: &[&str]) -> (r: bool)
    ensures
        r == bool_tolerant_from(*value, keys@, 0),
{
    let mut i: usize = 0;
    while i < keys.len()
        invariant
            i <= keys@.len(),
            bool_tolerant_from(*value, keys@, 0) == bool_tolerant_from(*value, keys@, i as int),
        decreases keys@.len() - i,
    {
        match json_get(value, keys[i]) {
            Some(Json::Bool(b)) => return *b,
            Some(Json::Number(n)) => return number_is_positive(n),
            Some(Json::Str(s)) => {
                let t = trim_str(s.as_str());
                let l = to_lowercase(t.as_slice());
                return is_truthy_word(l.as_slice());
            },
            _ => {},
        }
        i += 1;
    }
    false
}

pub open spec fn endcap_pattern() -> Seq<char> {
    "(?i)\\s+endcap$"@
}

/// Removes an `endcap` suffix (case-insensitive, after whitespace), then trims.
pub open spec fn strip_endcap_spec(raw: Seq<char>) -> Seq<char> {
    trim(remove_first_match(endcap_pattern(), raw))
}

fn strip_endcap(raw: &[char]) -> (r: Vec<char>)
    ensures
        r@ == strip_endcap_spec(raw@),
{
    let removed = remove_first_match_exec("(?i)\\s+endcap$", raw);
    trim_chars(removed.as_slice())
}

/// `kind` normalisation: trimmed, lower case.
pub open spec fn normalize_kind(raw: Seq<char>) -> Seq<char> {
    unicode_lowercase(trim(raw))
}

// ───────────────────────────── parsing ─────────────────────────────

/// The model of one payload object; `None` when no field is filled in.
#[verifier::opaque]
pub open spec fn parse_object_spec(value: Json) -> Option<CurrentShowView> {
    let show = strip_endcap_spec(first_string_from(value, seq!["show", "name", "title", "label"], 0));
    let kind = normalize_kind(
        first_string_from(value, seq!["kind", "show_kind", "showKind", "type"], 0),
    );
    let since = match int_at_from(value, seq!["since", "started_at", "startedAt"], 0) {
        Some(n) => if n > 0 {
            n
        } else {
            0
        },
        None => 0,
    };
    let is_live = bool_tolerant_from(value, seq!["is_live", "isLive", "show_is_live"], 0) || kind
        == "live"@;
    if show.len() == 0 && kind.len() == 0 && !is_live && since <= 0 {
        None
    } else {
        Some(CurrentShowView { show, kind, is_live, since })
    }
}

fn parse_object(value: &Json) -> (r: Option<CurrentShow>)
    ensures
        r is Some <==> parse_object_spec(*value) is Some,
        r matches Some(cs) ==> parse_object_spec(*value) == Some(cs@),
{
    reveal(parse_object_spec);
    let show_keys: [&str; 4] = ["show", "name", "title", "label"];
    let kind_keys: [&str; 4] = ["kind", "show_kind", "showKind", "type"];
    let since_keys: [&str; 3] = ["since", "started_at", "startedAt"];
    let live_keys: [&str; 3] = ["is_live", "isLive", "show_is_live"];
    assert(show_keys@ == seq!["show", "name", "title", "label"]);
    assert(kind_keys@ == seq!["kind", "show_kind", "showKind", "type"]);
    assert(since_keys@ == seq!["since", "started_at", "startedAt"]);
    assert(live_keys@ == seq!["is_live", "isLive", "show_is_live"]);
    let show_raw = first_string(value, &show_keys);
    let show = strip_endcap(show_raw.as_slice());
    let kind_raw = first_string(value, &kind_keys);
    let kind_t = trim_chars(kind_raw.as_slice());
    let kind = to_lowercase(kind_t.as_slice());
    let since: i64 = match int_at(value, &since_keys) {
        Some(n) => if n > 0 {
            n
        } else {
            0
        },
        None => 0,
    };
    let live_word = chars_of("live");
    let is_live = bool_tolerant(value, &live_keys) || chars_eq(kind.as_slice(), live_word.as_slice());
    // Valid when at least one field is filled in.
    if show.len() == 0 && kind.len() == 0 && !is_live && since <= 0 {
        return None;
    }
    Some(
        CurrentShow {
            show: string_from_chars(show.as_slice()),
            kind: string_from_chars(kind.as_slice()),
            is_live,
            since,
        },
    )
}

/// First decodable candidate, from position `i` on.
pub open spec fn first_object_from(items: Seq<Json>, i: int) -> Option<CurrentShowView>
    decreases items.len() - i,
{
    if i < 0 || i >= items.len() {
        None
    } else {
        match parse_object_spec(items[i]) {
            Some(cs) => Some(cs),
            None => first_object_from(items, i + 1),
        }
    }
}

/// The model of a payload: a plain string (the show name), an object, or an array whose
/// first decodable element is used.
pub open spec fn parse_value_spec(root: Json) -> Option<CurrentShowView> {
    match root {
        Json::Str(s) => {
            let show = strip_endcap_spec(s@);
            if show.len() > 0 {
                Some(CurrentShowView { show, kind: seq![], is_live: false, since: 0 })
            } else {
                None
            }
        },
        Json::Array(items) => first_object_from(items@, 0),
        _ => parse_object_spec(root),
    }
}

/// What an object says of its kind and live flag: the kind is the first kind field,
/// trimmed then lower-cased, the show is live exactly when a live flag says so or that
/// kind is « live », and the name is the first name field without its end marker.
pub open spec fn kind_and_live_from(v: Json, cs: CurrentShowView) -> bool {
    &&& cs.kind == unicode_lowercase(
        trim(first_string_from(v, seq!["kind", "show_kind", "showKind", "type"], 0)),
    )
    &&& cs.kind == "live"@ ==> cs.is_live
    &&& cs.is_live == (bool_tolerant_from(v, seq!["is_live", "isLive", "show_is_live"], 0)
        || cs.kind == "live"@)
    &&& cs.show == strip_endcap_spec(first_string_from(v, seq!["show", "name", "title", "label"], 0))
}

proof fn lemma_first_object_from(items: Seq<Json>, i: int)
    requires
        0 <= i,
    ensures
        first_object_from(items, i) matches Some(cs) ==> exists|k: int|
            i <= k < items.len() && #[trigger] parse_object_spec(items[k]) == Some(cs),
    decreases items.len() - i,
{
    if i < items.len() {
        lemma_first_object_from(items, i + 1);
    }
}

/// The kind of a decoded show is its first kind field, trimmed and lower-cased (so
/// « Live » reads « live »), and a show whose kind is « live » is live even without a
/// live flag. For an array, this holds of the element that was decoded; a plain string
/// payload has no kind and is not live.
pub proof fn kind_is_normalised_and_live_kind_is_live(root: Json)
    ensures
        parse_value_spec(root) matches Some(cs) ==> match root {
            Json::Str(_) => cs.kind.len() == 0 && !cs.is_live,
            Json::Array(items) => exists|k: int|
                0 <= k < items@.len() && #[trigger] parse_object_spec(items@[k]) == Some(cs)
                    && kind_and_live_from(items@[k], cs),
            _ => kind_and_live_from(root, cs),
        },
{
    match root {
        Json::Str(_) => {},
        Json::Array(items) => {
            lemma_first_object_from(items@, 0);
            if let Some(cs) = parse_value_spec(root) {
                let k = choose|k: int| 0 <= k < items@.len() && #[trigger] parse_object_spec(items@[k]) == Some(cs);
                reveal(parse_object_spec);
                assert(kind_and_live_from(items@[k], cs));
            }
        },
        _ => {
            reveal(parse_object_spec);
        },
    }
}

/// Reads a parsed payload.
#[verifier::loop_isolation(false)]
pub fn parse_value(root: &Json) -> (r: Option<CurrentShow>)
    ensures
        r is Some <==> parse_value_spec(*root) is Some,
        r matches Some(cs) ==> parse_value_spec(*root) == Some(cs@),
{
    match root {
        Json::Str(s) => {
            let raw = chars_of(s.as_str());
            let show = strip_endcap(raw.as_slice());
            if show.len() > 0 {
                Some(
                    CurrentShow {
                        show: string_from_chars(show.as_slice()),
                        kind: String::new(),
                        is_live: false,
                        since: 0,
                    },
                )
            } else {
                None
            }
        },
        Json::Array(items) => {
            let mut i: usize = 0;
            while i < items.len()
                invariant
                    i <= items@.len(),
                    first_object_from(items@, 0) == first_object_from(items@, i as int),
                decreases items@.len() - i,
            {
                if let Some(cs) = parse_object(&items[i]) {
                    return Some(cs);
                }
                i += 1;
            }
            None
        },
        _ => parse_object(root),
    }
}

/// What `parse` returns for a text.
pub open spec fn parse_spec(data: Seq<char>) -> Option<CurrentShowView> {
    match json_document(data) {
        Some(root) => parse_value_spec(root),
        None => None,
    }
}

/// Parses `current-show.json`.
pub fn parse(data: &str) -> (r: Option<CurrentShow>)
    ensures
        r is Some <==> parse_spec(data@) is Some,
        r matches Some(cs) ==> parse_spec(data@) == Some(cs@),
{
    match parse_json(data) {
        Some(root) => parse_value(&root),
        None => None,
    }
}

} // verus!
