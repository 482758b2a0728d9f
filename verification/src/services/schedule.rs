//! `schedule.json`: days and slots, the alias table (embedded table merged with the JSON
//! `aliases`), the comparable form of names, the current slot (from `start`), and matching
//! an on-air name with a schedule title.
use vstd::prelude::*;

use crate::content::{ScheduleDay, ScheduleDayView, ScheduleSlot, ScheduleSlotView};
use crate::json::{get, json_document, json_get, parse_json, Json};
use crate::pattern::{captures, group, group_of, regex_first_captures};
use crate::services::news::{string_field, string_field_exec};
use crate::text::{
    char_is_ascii_alnum, chars_eq, chars_of, eq_ignore_ascii_case, eq_ignore_ascii_case_chars,
    first_occurrence, find_chars, is_ascii_alnum, parse_u32, parse_u32_spec, str_eq,
    string_from_chars, sub_chars, to_lowercase, trim, trim_chars, trim_str, unicode_lowercase,
};

verus! {

/// Parsed schedule: days + normalised alias table (variant → canonical form). In
/// `alias_map`, a later pair overrides an earlier one with the same variant.
#[derive(Debug, Clone)]
pub struct Schedule {
    pub days: Vec<ScheduleDay>,
    pub alias_map: Vec<(String, String)>,
}

// ───────────────────────────── alias table ─────────────────────────────

/// The table an alias list stands for: each pair inserted in order.
pub open spec fn alias_table(pairs: Seq<(Seq<char>, Seq<char>)>) -> Map<Seq<char>, Seq<char>>
    decreases pairs.len(),
{
    if pairs.len() == 0 {
        Map::empty()
    } else {
        alias_table(pairs.drop_last()).insert(pairs.last().0, pairs.last().1)
    }
}

/// Canonical form of an already normalised text: its alias, else itself.
pub open spec fn canonical_spec(pairs: Seq<(Seq<char>, Seq<char>)>, normalized: Seq<char>) -> Seq<
    char,
> {
    if alias_table(pairs).contains_key(normalized) {
        alias_table(pairs)[normalized]
    } else {
        normalized
    }
}

/// Embedded fallback table (already normalised), for offline use.
pub open spec fn embedded_aliases() -> Seq<(Seq<char>, Seq<char>)> {
    seq![
        ("blocsonic"@, "blocsonic"@),
        ("blocsonic mixtapes"@, "blocsonic"@),
        ("instinct mode"@, "l instinct mode"@),
        ("l instinct mode"@, "l instinct mode"@),
        ("autre nuit"@, "l autre nuit"@),
        ("l autre nuit"@, "l autre nuit"@),
        ("pseudodocumentaire de l espace"@, "le pseudodocumentaire de l espace"@),
        ("le pseudodocumentaire de l espace"@, "le pseudodocumentaire de l espace"@),
        ("fragments"@, "matinee fragments"@),
        ("matinee fragments"@, "matinee fragments"@),
        ("trajectoires"@, "matinee trajectoires"@),
        ("matinee trajectoires"@, "matinee trajectoires"@),
        ("immersion"@, "matinee immersion"@),
        ("matinee immersion"@, "matinee immersion"@),
        ("traversees"@, "matinee traversees"@),
        ("matinee traversees"@, "matinee traversees"@),
        ("transmissions du dr john"@, "les transmissions du dr john"@),
        ("les transmissions du dr john"@, "les transmissions du dr john"@),
        ("ondes du chat noir"@, "les ondes du chat noir"@),
        ("les ondes du chat noir"@, "les ondes du chat noir"@),
    ]
}

fn push_pair(v: &mut Vec<(String, String)>, k: &str, c: &str)
    ensures
        final(v).deep_view() == old(v).deep_view().push((k@, c@)),
{
    let pair = (string_from_chars(chars_of(k).as_slice()), string_from_chars(chars_of(c).as_slice()));
    v.push(pair);
    assert(final(v).deep_view() =~= old(v).deep_view().push((k@, c@)));
}

fn embedded_alias_list() -> (r: Vec<(String, String)>)
    ensures
        r.deep_view() == embedded_aliases(),
{
    let mut v: Vec<(String, String)> = Vec::new();
    push_pair(&mut v, "blocsonic", "blocsonic");
    push_pair(&mut v, "blocsonic mixtapes", "blocsonic");
    push_pair(&mut v, "instinct mode", "l instinct mode");
    push_pair(&mut v, "l instinct mode", "l instinct mode");
    push_pair(&mut v, "autre nuit", "l autre nuit");
    push_pair(&mut v, "l autre nuit", "l autre nuit");
    push_pair(&mut v, "pseudodocumentaire de l espace", "le pseudodocumentaire de l espace");
    push_pair(&mut v, "le pseudodocumentaire de l espace", "le pseudodocumentaire de l espace");
    push_pair(&mut v, "fragments", "matinee fragments");
    push_pair(&mut v, "matinee fragments", "matinee fragments");
    push_pair(&mut v, "trajectoires", "matinee trajectoires");
    push_pair(&mut v, "matinee trajectoires", "matinee trajectoires");
    push_pair(&mut v, "immersion", "matinee immersion");
    push_pair(&mut v, "matinee immersion", "matinee immersion");
    push_pair(&mut v, "traversees", "matinee traversees");
    push_pair(&mut v, "matinee traversees", "matinee traversees");
    push_pair(&mut v, "transmissions du dr john", "les transmissions du dr john");
    push_pair(&mut v, "les transmissions du dr john", "les transmissions du dr john");
    push_pair(&mut v, "ondes du chat noir", "les ondes du chat noir");
    push_pair(&mut v, "les ondes du chat noir", "les ondes du chat noir");
    assert(v.deep_view() =~= embedded_aliases());
    v
}

/// Alias of `key` in `pairs` (the last pair with that variant wins).
fn alias_lookup(pairs: &Vec<(String, String)>, key: &[char]) -> (r: Option<String>)
    ensures
        alias_table(pairs.deep_view()).contains_key(key@) ==> (r matches Some(v) && v@
            == alias_table(pairs.deep_view())[key@]),
        !alias_table(pairs.deep_view()).contains_key(key@) ==> r is None,
{
    let ghost all = pairs.deep_view();
    let mut j = pairs.len();
    assert(all.take(j as int) == all);
    while j > 0
        invariant
            j <= pairs.len(),
            all == pairs.deep_view(),
            alias_table(all).contains_key(key@) == alias_table(all.take(j as int)).contains_key(
                key@,
            ),
            alias_table(all).contains_key(key@) ==> alias_table(all)[key@] == alias_table(
                all.take(j as int),
            )[key@],
        decreases j,
    {
        let k = chars_of(pairs[j - 1].0.as_str());
        assert(all.take(j as int).drop_last() == all.take(j - 1));
        assert(all.take(j as int).last() == all[j - 1]);
        if chars_eq(k.as_slice(), key) {
            return Some(pairs[j - 1].1.clone());
        }
        j -= 1;
    }
    None
}

// ───────────────────────────── text normalisation ─────────────────────────────

/// French diacritic folding of one character.
pub open spec fn fold_char(c: char) -> char {
    if c == 'à' || c == 'â' || c == 'ä' || c == 'á' || c == 'ã' {
        'a'
    } else if c == 'ç' {
        'c'
    } else if c == 'é' || c == 'è' || c == 'ê' || c == 'ë' {
        'e'
    } else if c == 'î' || c == 'ï' || c == 'í' || c == 'ì' {
        'i'
    } else if c == 'ô' || c == 'ö' || c == 'ó' || c == 'ò' || c == 'õ' {
        'o'
    } else if c == 'ù' || c == 'û' || c == 'ü' || c == 'ú' {
        'u'
    } else if c == 'ÿ' || c == 'ý' {
        'y'
    } else if c == 'ñ' {
        'n'
    } else {
        c
    }
}

fn fold_char_exec(c: char) -> (r: char)
    ensures
        r == fold_char(c),
{
    if c == 'à' || c == 'â' || c == 'ä' || c == 'á' || c == 'ã' {
        'a'
    } else if c == 'ç' {
        'c'
    } else if c == 'é' || c == 'è' || c == 'ê' || c == 'ë' {
        'e'
    } else if c == 'î' || c == 'ï' || c == 'í' || c == 'ì' {
        'i'
    } else if c == 'ô' || c == 'ö' || c == 'ó' || c == 'ò' || c == 'õ' {
        'o'
    } else if c == 'ù' || c == 'û' || c == 'ü' || c == 'ú' {
        'u'
    } else if c == 'ÿ' || c == 'ý' {
        'y'
    } else if c == 'ñ' {
        'n'
    } else {
        c
    }
}

/// Keeps the ASCII letters and digits of the folded characters from position `i`,
/// separating the runs by one space (no leading space).
pub open spec fn compact_from(s: Seq<char>, i: int, out: Seq<char>, pending: bool) -> Seq<char>
    decreases s.len() - i,
{
    if i < 0 || i >= s.len() {
        out
    } else {
        let c = fold_char(s[i]);
        if is_ascii_alnum(c) {
            let spaced = if pending && out.len() > 0 {
                out.push(' ')
            } else {
                out
            };
            compact_from(s, i + 1, spaced.push(c), false)
        } else {
            compact_from(s, i + 1, out, true)
        }
    }
}

/// Comparable form of a name: trim → lower case → French diacritics folded → every run
/// of other characters (apostrophes, punctuation, spaces) becomes one space → trimmed.
pub open spec fn normalize_comparable_spec(input: Seq<char>) -> Seq<char> {
    compact_from(unicode_lowercase(trim(input)), 0, seq![], false)
}

/// Text in normalized form: ASCII letters and digits, in words separated by single
/// spaces, with no space at either end.
pub open spec fn is_normalized(s: Seq<char>) -> bool {
    &&& forall|i: int| 0 <= i < s.len() ==> is_ascii_alnum(#[trigger] s[i]) || s[i] == ' '
    &&& s.len() > 0 ==> is_ascii_alnum(s[0]) && is_ascii_alnum(s.last())
    &&& forall|i: int| 0 <= i < s.len() - 1 && #[trigger] s[i] == ' ' ==> is_ascii_alnum(s[i + 1])
}

proof fn lemma_compact_normalized(s: Seq<char>, i: int, out: Seq<char>, pending: bool)
    requires
        is_normalized(out),
    ensures
        is_normalized(compact_from(s, i, out, pending)),
    decreases s.len() - i,
{
    if 0 <= i < s.len() {
        let c = fold_char(s[i]);
        if is_ascii_alnum(c) {
            let spaced = if pending && out.len() > 0 {
                out.push(' ')
            } else {
                out
            };
            let next = spaced.push(c);
            assert(is_normalized(next)) by {
                assert forall|k: int| 0 <= k < next.len() implies is_ascii_alnum(#[trigger] next[k]) || next[k] == ' ' by {
                    if k < out.len() {
                        assert(next[k] == out[k]);
                    }
                }
                if out.len() > 0 {
                    assert(next[0] == out[0]);
                }
                assert forall|k: int| 0 <= k < next.len() - 1 && #[trigger] next[k] == ' ' implies is_ascii_alnum(next[k + 1]) by {
                    if k < out.len() - 1 {
                        assert(next[k] == out[k] && next[k + 1] == out[k + 1]);
                    } else if k == out.len() - 1 {
                        assert(next[k] == out.last());
                    }
                }
            }
            lemma_compact_normalized(s, i + 1, next, false);
        } else {
            lemma_compact_normalized(s, i + 1, out, true);
        }
    }
}

/// `normalize_comparable` always yields normalized text: ASCII letters and digits in
/// words separated by single spaces, trimmed.
pub proof fn normalized_text_is_compact(input: Seq<char>)
    ensures
        is_normalized(normalize_comparable_spec(input)),
{
    lemma_compact_normalized(unicode_lowercase(trim(input)), 0, seq![], false);
}

fn compact(s: &[char]) -> (r: Vec<char>)
    ensures
        r@ == compact_from(s@, 0, seq![], false),
{
    let mut out: Vec<char> = Vec::new();
    let mut pending = false;
    let mut i: usize = 0;
    while i < s.len()
        invariant
            i <= s@.len(),
            compact_from(s@, 0, seq![], false) == compact_from(s@, i as int, out@, pending),
        decreases s@.len() - i,
    {
        let c = fold_char_exec(s[i]);
        if char_is_ascii_alnum(c) {
            if pending && out.len() > 0 {
                out.push(' ');
            }
            pending = false;
            out.push(c);
        } else {
            pending = true;
        }
        i += 1;
    }
    out
}

/// Comparable form of a name: trim → lower case → French diacritic folding →
/// apostrophes and other non-alphanumerics → space → spaces compacted → trimmed.
pub fn normalize_comparable(input: &str) -> (r: String)
    ensures
        r@ == normalize_comparable_spec(input@),
{
    let t = trim_str(input);
    let lowered = to_lowercase(t.as_slice());
    let out = compact(lowered.as_slice());
    string_from_chars(out.as_slice())
}

// ───────────────────────────── slots ─────────────────────────────

/// `HH:MM` (split at the first `:`, both parts read as `u32`), within a day.
pub open spec fn parse_hhmm_spec(s: Seq<char>) -> Option<u32> {
    let t = trim(s);
    match first_occurrence(t, seq![':']) {
        None => None,
        Some(i) => match (parse_u32_spec(t.subrange(0, i)), parse_u32_spec(t.subrange(i + 1, t.len() as int))) {
            (Some(h), Some(m)) => if h < 24 && m < 60 {
                Some((h * 60 + m) as u32)
            } else {
                None
            },
            _ => None,
        },
    }
}

fn parse_hhmm(s: &[char]) -> (r: Option<u32>)
    ensures
        r == parse_hhmm_spec(s@),
{
    let t = trim_chars(s);
    let mut colon: Vec<char> = Vec::new();
    colon.push(':');
    assert(colon@ =~= seq![':']);
    match find_chars(t.as_slice(), colon.as_slice()) {
        None => None,
        Some(i) => {
            let n = t.len();
            let hs = sub_chars(t.as_slice(), 0, i);
            let ms = sub_chars(t.as_slice(), i + 1, n);
            match (parse_u32(hs.as_slice()), parse_u32(ms.as_slice())) {
                (Some(h), Some(m)) => if h < 24 && m < 60 {
                    Some(h * 60 + m)
                } else {
                    None
                },
                _ => None,
            }
        },
    }
}

pub open spec fn time_label_pattern() -> Seq<char> {
    "^(\\d{1,2})\\s*[h:]\\s*(\\d{2})$"@
}

/// A display time such as `07h05` or `7:05`.
pub open spec fn parse_time_label_spec(time: Seq<char>) -> Option<u32> {
    match regex_first_captures(time_label_pattern(), trim(time)) {
        None => None,
        Some(g) => match (group(g, 1), group(g, 2)) {
            (Some(hs), Some(ms)) => match (parse_u32_spec(hs), parse_u32_spec(ms)) {
                (Some(h), Some(m)) => if h < 24 && m < 60 {
                    Some((h * 60 + m) as u32)
                } else {
                    None
                },
                _ => None,
            },
            _ => None,
        },
    }
}

fn parse_time_label(time: &[char]) -> (r: Option<u32>)
    ensures
        r == parse_time_label_spec(time@),
{
    let t = trim_chars(time);
    let ts = string_from_chars(t.as_slice());
    let g = match captures("^(\\d{1,2})\\s*[h:]\\s*(\\d{2})$", ts.as_str()) {
        Some(g) => g,
        None => return None,
    };
    match (group_of(&g, 1), group_of(&g, 2)) {
        (Some(hs), Some(ms)) => {
            let hv = chars_of(hs.as_str());
            let mv = chars_of(ms.as_str());
            match (parse_u32(hv.as_slice()), parse_u32(mv.as_slice())) {
                (Some(h), Some(m)) => if h < 24 && m < 60 {
                    Some(h * 60 + m)
                } else {
                    None
                },
                _ => None,
            }
        },
        _ => None,
    }
}

/// `Value::as_bool`, `false` when absent.
pub open spec fn bool_field(value: Json, key: Seq<char>) -> bool {
    match get(value, key) {
        Some(Json::Bool(b)) => b,
        _ => false,
    }
}

fn bool_field_exec(value: &Json, key: &str) -> (r: bool)
    ensures
        r == bool_field(*value, key@),
{
    match json_get(value, key) {
        Some(Json::Bool(b)) => *b,
        _ => false,
    }
}

/// Start of a slot: its `start` (`HH:MM`), else its display time, else — for « Puis » —
/// the start of the previous timed slot.
pub open spec fn slot_start(value: Json, time: Seq<char>, last_start: Option<u32>) -> Option<u32> {
    match parse_hhmm_spec(string_field(value, "start"@)) {
        Some(s) => Some(s),
        None => match parse_time_label_spec(time) {
            Some(s) => Some(s),
            None => if eq_ignore_ascii_case(time, "puis"@) {
                last_start
            } else {
                None
            },
        },
    }
}

/// Slots from position `i`, given the start of the last timed slot; entries without a
/// time or a title are skipped.
pub open spec fn slots_from(items: Seq<Json>, i: int, last_start: Option<u32>) -> Seq<ScheduleSlotView>
    decreases items.len() - i,
{
    if i < 0 || i >= items.len() {
        seq![]
    } else {
        let value = items[i];
        let time = string_field(value, "time"@);
        let title = string_field(value, "title"@);
        if time.len() == 0 || title.len() == 0 {
            slots_from(items, i + 1, last_start)
        } else {
            let start_min = slot_start(value, time, last_start);
            let badge = string_field(value, "badge"@);
            let slot = ScheduleSlotView {
                time,
                title,
                desc: string_field(value, "desc"@),
                meta: bool_field(value, "meta"@),
                highlight: bool_field(value, "highlight"@),
                badge: if badge.len() > 0 {
                    Some(badge)
                } else {
                    None
                },
                kind: string_field(value, "kind"@),
                start_min,
                end_min: parse_hhmm_spec(string_field(value, "end"@)),
            };
            seq![slot] + slots_from(
                items,
                i + 1,
                if start_min is Some {
                    start_min
                } else {
                    last_start
                },
            )
        }
    }
}

fn parse_slots(items: &Vec<Json>) -> (r: Vec<ScheduleSlot>)
    ensures
        r.deep_view() == slots_from(items@, 0, None),
{
    let mut slots: Vec<ScheduleSlot> = Vec::new();
    let mut last_start: Option<u32> = None;
    let mut i: usize = 0;
    assert(slots.deep_view() =~= Seq::<ScheduleSlotView>::empty());
    while i < items.len()
        invariant
            i <= items@.len(),
            slots_from(items@, 0, None) == slots.deep_view() + slots_from(items@, i as int, last_start),
        decreases items@.len() - i,
    {
        let value = &items[i];
        let time = string_field_exec(value, "time");
        let title = string_field_exec(value, "title");
        if time.len() > 0 && title.len() > 0 {
            let start_field = string_field_exec(value, "start");
            let puis = chars_of("puis");
            let start_min = match parse_hhmm(start_field.as_slice()) {
                Some(s) => Some(s),
                None => match parse_time_label(time.as_slice()) {
                    Some(s) => Some(s),
                    None => if eq_ignore_ascii_case_chars(time.as_slice(), puis.as_slice()) {
                        last_start
                    } else {
                        None
                    },
                },
            };
            if let Some(s) = start_min {
                last_start = Some(s);
            }
            let end_field = string_field_exec(value, "end");
            let end_min = parse_hhmm(end_field.as_slice());
            let badge = string_field_exec(value, "badge");
            let desc = string_field_exec(value, "desc");
            let kind = string_field_exec(value, "kind");
            let slot = ScheduleSlot {
                time: string_from_chars(time.as_slice()),
                title: string_from_chars(title.as_slice()),
                desc: string_from_chars(desc.as_slice()),
                meta: bool_field_exec(value, "meta"),
                highlight: bool_field_exec(value, "highlight"),
                badge: if badge.len() > 0 {
                    Some(string_from_chars(badge.as_slice()))
                } else {
                    None
                },
                kind: string_from_chars(kind.as_slice()),
                start_min,
                end_min,
            };
            let ghost before = slots.deep_view();
            slots.push(slot);
            assert(slots.deep_view() =~= before.push(slot@));
            assert(before.push(slot@) + slots_from(items@, i + 1, last_start) =~= before + (seq![
                slot@,
            ] + slots_from(items@, i + 1, last_start)));
        }
        i += 1;
    }
    assert(slots.deep_view() + Seq::<ScheduleSlotView>::empty() == slots.deep_view());
    slots
}

// ───────────────────────────── days ─────────────────────────────

/// Valid day identifiers.
pub open spec fn valid_day_id(id: Seq<char>) -> bool {
    id == "mon"@ || id == "tue"@ || id == "wed"@ || id == "thu"@ || id == "fri"@ || id == "sat"@
        || id == "sun"@
}

fn is_valid_day_id(id: &[char]) -> (r: bool)
    ensures
        r == valid_day_id(id@),
{
    chars_eq(id, chars_of("mon").as_slice()) || chars_eq(id, chars_of("tue").as_slice())
        || chars_eq(id, chars_of("wed").as_slice()) || chars_eq(id, chars_of("thu").as_slice())
        || chars_eq(id, chars_of("fri").as_slice()) || chars_eq(id, chars_of("sat").as_slice())
        || chars_eq(id, chars_of("sun").as_slice())
}

/// A day: rejected unless its `id` is one of `mon`..`sun`; `shortName` defaults to `id`.
pub open spec fn parse_day_spec(value: Json) -> Option<ScheduleDayView> {
    let id = string_field(value, "id"@);
    if !valid_day_id(id) {
        None
    } else {
        let short = string_field(value, "shortName"@);
        Some(
            ScheduleDayView {
                id,
                name: string_field(value, "name"@),
                short_name: if short.len() == 0 {
                    id
                } else {
                    short
                },
                summary: string_field(value, "summary"@),
                slots: match get(value, "slots"@) {
                    Some(Json::Array(a)) => slots_from(a@, 0, None),
                    _ => seq![],
                },
            },
        )
    }
}

fn parse_day(value: &Json) -> (r: Option<ScheduleDay>)
    ensures
        r is Some <==> parse_day_spec(*value) is Some,
        r matches Some(d) ==> parse_day_spec(*value) == Some(d@),
{
    let id = string_field_exec(value, "id");
    if !is_valid_day_id(id.as_slice()) {
        return None;
    }
    let name = string_field_exec(value, "name");
    let short = string_field_exec(value, "shortName");
    let short_name = if short.len() == 0 {
        string_from_chars(id.as_slice())
    } else {
        string_from_chars(short.as_slice())
    };
    let summary = string_field_exec(value, "summary");
    let slots = match json_get(value, "slots") {
        Some(Json::Array(a)) => parse_slots(a),
        _ => {
            let empty: Vec<ScheduleSlot> = Vec::new();
            assert(empty.deep_view() =~= Seq::<ScheduleSlotView>::empty());
            empty
        },
    };
    Some(
        ScheduleDay {
            id: string_from_chars(id.as_slice()),
            name: string_from_chars(name.as_slice()),
            short_name,
            summary: string_from_chars(summary.as_slice()),
            slots,
        },
    )
}

/// Days kept, in order.
pub open spec fn days_of(items: Seq<Json>) -> Seq<ScheduleDayView>
    decreases items.len(),
{
    if items.len() == 0 {
        seq![]
    } else {
        match parse_day_spec(items.last()) {
            Some(d) => days_of(items.drop_last()).push(d),
            None => days_of(items.drop_last()),
        }
    }
}

/// Aliases of the payload (normalised variant → normalised canonical form), in member
/// order, from position `i`; members whose value is not a string are skipped.
pub open spec fn json_aliases(members: Seq<(String, Json)>) -> Seq<(Seq<char>, Seq<char>)>
    decreases members.len(),
{
    if members.len() == 0 {
        seq![]
    } else {
        match members.last().1 {
            Json::Str(c) => json_aliases(members.drop_last()).push(
                (normalize_comparable_spec(members.last().0@), normalize_comparable_spec(c@)),
            ),
            _ => json_aliases(members.drop_last()),
        }
    }
}

/// The alias list of a payload: the embedded table, then the payload's `aliases`.
pub open spec fn alias_pairs(root: Json) -> Seq<(Seq<char>, Seq<char>)> {
    match get(root, "aliases"@) {
        Some(Json::Object(members)) => embedded_aliases() + json_aliases(members@),
        _ => embedded_aliases(),
    }
}

/// The days of a payload.
pub open spec fn days_spec(root: Json) -> Seq<ScheduleDayView> {
    match get(root, "days"@) {
        Some(Json::Array(a)) => days_of(a@),
        _ => seq![],
    }
}

fn parse_aliases(root: &Json) -> (r: Vec<(String, String)>)
    ensures
        r.deep_view() == alias_pairs(*root),
{
    let mut v = embedded_alias_list();
    match json_get(root, "aliases") {
        Some(Json::Object(members)) => {
            let ghost all = members@;
            let ghost base = v.deep_view();
            let mut i: usize = 0;
            assert(all.take(0) =~= Seq::<(String, Json)>::empty());
            assert(base + json_aliases(all.take(0)) =~= base);
            while i < members.len()
                invariant
                    i <= members@.len(),
                    all == members@,
                    base == embedded_aliases(),
                    v.deep_view() == base + json_aliases(all.take(i as int)),
                decreases members@.len() - i,
            {
                assert(all.take(i + 1).drop_last() == all.take(i as int));
                assert(all.take(i + 1).last() == all[i as int]);
                match &members[i].1 {
                    Json::Str(c) => {
                        let k = normalize_comparable(members[i].0.as_str());
                        let cv = normalize_comparable(c.as_str());
                        let ghost before = v.deep_view();
                        v.push((k, cv));
                        assert(v.deep_view() =~= before.push((k@, cv@)));
                    },
                    _ => {},
                }
                i += 1;
            }
            assert(all.take(members@.len() as int) == all);
        },
        _ => {},
    }
    v
}

fn parse_days(root: &Json) -> (r: Vec<ScheduleDay>)
    ensures
        r.deep_view() == days_spec(*root),
{
    let mut out: Vec<ScheduleDay> = Vec::new();
    match json_get(root, "days") {
        Some(Json::Array(items)) => {
            let ghost all = items@;
            assert(all.take(0) =~= Seq::<Json>::empty());
            assert(out.deep_view() =~= Seq::<ScheduleDayView>::empty());
            let mut i: usize = 0;
            while i < items.len()
                invariant
                    i <= items@.len(),
                    all == items@,
                    out.deep_view() == days_of(all.take(i as int)),
                decreases items@.len() - i,
            {
                assert(all.take(i + 1).drop_last() == all.take(i as int));
                assert(all.take(i + 1).last() == all[i as int]);
                if let Some(d) = parse_day(&items[i]) {
                    let ghost before = out.deep_view();
                    out.push(d);
                    assert(out.deep_view() =~= before.push(d@));
                }
                i += 1;
            }
            assert(all.take(items@.len() as int) == all);
        },
        _ => {},
    }
    out
}

/// Reads a parsed payload.
pub fn parse_value(root: &Json) -> (r: Schedule)
    ensures
        r.days.deep_view() == days_spec(*root),
        r.alias_map.deep_view() == alias_pairs(*root),
{
    Schedule { days: parse_days(root), alias_map: parse_aliases(root) }
}

/// Parses `schedule.json`; a text that is not JSON gives no days and the embedded alias
/// table.
pub fn parse(data: &str) -> (r: Schedule)
    ensures
        json_document(data@) matches Some(root) ==> r.days.deep_view() == days_spec(root)
            && r.alias_map.deep_view() == alias_pairs(root),
        json_document(data@) is None ==> r.days.len() == 0 && r.alias_map.deep_view()
            == embedded_aliases(),
{
    match parse_json(data) {
        Some(root) => parse_value(&root),
        None => Schedule { days: Vec::new(), alias_map: embedded_alias_list() },
    }
}

// ───────────────────────────── queries ─────────────────────────────

/// Index of the first day with identifier `id`, from position `i`.
pub open spec fn day_index_from(days: Seq<ScheduleDayView>, id: Seq<char>, i: int) -> Option<int>
    decreases days.len() - i,
{
    if i < 0 || i >= days.len() {
        None
    } else if days[i].id == id {
        Some(i)
    } else {
        day_index_from(days, id, i + 1)
    }
}

/// Best slot so far: the one with the greatest start at or before `minute`, the later
/// one on equal starts.
pub open spec fn current_slot_from(
    slots: Seq<ScheduleSlotView>,
    minute: u32,
    i: int,
    best: Option<(int, u32)>,
) -> Option<(int, u32)>
    decreases slots.len() - i,
{
    if i < 0 || i >= slots.len() {
        best
    } else {
        match slots[i].start_min {
            Some(start) => if start <= minute && (match best {
                None => true,
                Some(b) => start >= b.1,
            }) {
                current_slot_from(slots, minute, i + 1, Some((i, start)))
            } else {
                current_slot_from(slots, minute, i + 1, best)
            },
            None => current_slot_from(slots, minute, i + 1, best),
        }
    }
}

/// Index of the current slot at `minute`: the slot whose start is the greatest at or
/// before `minute` (the later one on equal starts).
pub open spec fn current_slot_spec(slots: Seq<ScheduleSlotView>, minute: u32) -> Option<int> {
    match current_slot_from(slots, minute, 0, None) {
        Some(b) => Some(b.0),
        None => None,
    }
}

/// Index of the first slot whose title matches `target` through the alias table.
/// The started slots ending at `minute`: the slot at `k` starts at `s`, no later than
/// `minute`.
pub open spec fn starts_by(slots: Seq<ScheduleSlotView>, k: int, minute: u32) -> bool {
    slots[k].start_min matches Some(start) && start <= minute
}

/// `k` is the current slot for `minute`: it has started, no started slot starts later,
/// and no later slot starts at the same time.
pub open spec fn is_current_slot(slots: Seq<ScheduleSlotView>, k: int, minute: u32) -> bool {
    &&& 0 <= k < slots.len()
    &&& starts_by(slots, k, minute)
    &&& forall|j: int|
        0 <= j < slots.len() && starts_by(slots, j, minute) ==> (#[trigger] slots[j].start_min)->0
            <= slots[k].start_min->0
    &&& forall|j: int|
        k < j < slots.len() && starts_by(slots, j, minute) ==> (#[trigger] slots[j].start_min)->0
            < slots[k].start_min->0
}

proof fn lemma_current_slot_from(
    slots: Seq<ScheduleSlotView>,
    minute: u32,
    i: int,
    best: Option<(int, u32)>,
)
    requires
        0 <= i <= slots.len(),
        best matches Some(b) ==> {
            &&& 0 <= b.0 < i
            &&& slots[b.0].start_min == Some(b.1)
            &&& b.1 <= minute
            &&& forall|j: int| 0 <= j < i && starts_by(slots, j, minute) ==> (#[trigger] slots[j].start_min)->0 <= b.1
            &&& forall|j: int| b.0 < j < i && starts_by(slots, j, minute) ==> (#[trigger] slots[j].start_min)->0 < b.1
        },
        best is None ==> forall|j: int| 0 <= j < i ==> !starts_by(slots, j, minute),
    ensures
        current_slot_from(slots, minute, i, best) matches Some(b) ==> slots[b.0].start_min == Some(b.1)
            && is_current_slot(slots, b.0, minute),
        current_slot_from(slots, minute, i, best) is None ==> forall|j: int|
            0 <= j < slots.len() ==> !starts_by(slots, j, minute),
    decreases slots.len() - i,
{
    if i < slots.len() {
        match slots[i].start_min {
            Some(start) => {
                if start <= minute && (match best {
                    None => true,
                    Some(b) => start >= b.1,
                }) {
                    lemma_current_slot_from(slots, minute, i + 1, Some((i, start)));
                } else {
                    lemma_current_slot_from(slots, minute, i + 1, best);
                }
            },
            None => {
                lemma_current_slot_from(slots, minute, i + 1, best);
            },
        }
    }
}

/// The current slot is the started slot (start ≤ minute) with the latest start, the last
/// one at equal starts; there is none exactly when no slot has started.
pub proof fn current_slot_is_latest_started(slots: Seq<ScheduleSlotView>, minute: u32)
    ensures
        current_slot_spec(slots, minute) matches Some(k) ==> is_current_slot(slots, k, minute),
        current_slot_spec(slots, minute) is None <==> forall|j: int|
            0 <= j < slots.len() ==> !starts_by(slots, j, minute),
{
    lemma_current_slot_from(slots, minute, 0, None);
}

/// A later alias pair wins: after appending `(variant, name)`, `variant` maps to `name`
/// and every other text keeps its canonical form (so the payload's aliases override the
/// embedded table).
pub proof fn later_alias_wins(
    pairs: Seq<(Seq<char>, Seq<char>)>,
    variant: Seq<char>,
    name: Seq<char>,
    other: Seq<char>,
)
    ensures
        canonical_spec(pairs.push((variant, name)), variant) == name,
        other != variant ==> canonical_spec(pairs.push((variant, name)), other) == canonical_spec(
            pairs,
            other,
        ),
{
    assert(pairs.push((variant, name)).drop_last() == pairs);
}

/// A grid title and an on-air name denote the same show: their canonical forms (through
/// the alias table) agree, the title being normalised first.
pub open spec fn same_show(pairs: Seq<(Seq<char>, Seq<char>)>, title: Seq<char>, name: Seq<char>) -> bool {
    canonical_spec(pairs, normalize_comparable_spec(title)) == canonical_spec(pairs, name)
}

proof fn lemma_match_slot_from(
    pairs: Seq<(Seq<char>, Seq<char>)>,
    slots: Seq<ScheduleSlotView>,
    name: Seq<char>,
    i: int,
)
    requires
        0 <= i <= slots.len(),
    ensures
        match_slot_from(pairs, slots, canonical_spec(pairs, name), i) matches Some(k) ==> i <= k
            < slots.len() && same_show(pairs, slots[k].title, name) && forall|j: int|
            i <= j < k ==> !same_show(pairs, #[trigger] slots[j].title, name),
        match_slot_from(pairs, slots, canonical_spec(pairs, name), i) is None ==> forall|j: int|
            i <= j < slots.len() ==> !same_show(pairs, #[trigger] slots[j].title, name),
    decreases slots.len() - i,
{
    if i < slots.len() {
        lemma_match_slot_from(pairs, slots, name, i + 1);
    }
}

/// Matching an on-air name with the grid finds the first slot whose title denotes the
/// same show once both sides are canonicalised through the alias table (the grid title
/// after normalisation), so a slot titled with an alias variant of the name is found;
/// `None` exactly when no slot denotes it.
pub proof fn slot_match_is_first_same_show(
    pairs: Seq<(Seq<char>, Seq<char>)>,
    slots: Seq<ScheduleSlotView>,
    name: Seq<char>,
)
    ensures
        match_slot_from(pairs, slots, canonical_spec(pairs, name), 0) matches Some(k) ==> 0 <= k
            < slots.len() && same_show(pairs, slots[k].title, name) && forall|j: int|
            0 <= j < k ==> !same_show(pairs, #[trigger] slots[j].title, name),
        match_slot_from(pairs, slots, canonical_spec(pairs, name), 0) is None <==> forall|j: int|
            0 <= j < slots.len() ==> !same_show(pairs, #[trigger] slots[j].title, name),
{
    lemma_match_slot_from(pairs, slots, name, 0);
}

pub open spec fn match_slot_from(
    pairs: Seq<(Seq<char>, Seq<char>)>,
    slots: Seq<ScheduleSlotView>,
    target: Seq<char>,
    i: int,
) -> Option<int>
    decreases slots.len() - i,
{
    if i < 0 || i >= slots.len() {
        None
    } else if canonical_spec(pairs, normalize_comparable_spec(slots[i].title)) == target {
        Some(i)
    } else {
        match_slot_from(pairs, slots, target, i + 1)
    }
}

impl Schedule {
    /// The day with identifier `id`.
    pub fn day(&self, id: &str) -> (r: Option<&ScheduleDay>)
        ensures
            r is Some <==> day_index_from(self.days.deep_view(), id@, 0) is Some,
            r matches Some(d) ==> Some(d@) == (match day_index_from(self.days.deep_view(), id@, 0) {
                Some(i) => Some(self.days.deep_view()[i]),
                None => None,
            }),
    {
        let ghost days = self.days.deep_view();
        let mut i: usize = 0;
        while i < self.days.len()
            invariant
                i <= self.days.len(),
                days == self.days.deep_view(),
                day_index_from(days, id@, 0) == day_index_from(days, id@, i as int),
            decreases self.days.len() - i,
        {
            assert(days[i as int] == self.days[i as int]@);
            if str_eq(self.days[i].id.as_str(), id) {
                return Some(&self.days[i]);
            }
            i += 1;
        }
        None
    }

    /// Canonical form of an already normalised text (through `alias_map`, else itself).
    pub fn canonical(&self, normalized: &str) -> (r: String)
        ensures
            r@ == canonical_spec(self.alias_map.deep_view(), normalized@),
    {
        let key = chars_of(normalized);
        match alias_lookup(&self.alias_map, key.as_slice()) {
            Some(v) => v,
            None => string_from_chars(key.as_slice()),
        }
    }

    /// Index of the current slot for `minute_of_day` (Paris): the slot whose start is
    /// ≤ minute and the greatest (slots follow each other; the first covers 00h00).
    pub fn current_slot_index(day: &ScheduleDay, minute_of_day: u32) -> (r: Option<usize>)
        ensures
            r matches Some(i) ==> current_slot_spec(day@.slots, minute_of_day) == Some(i as int),
            r is None ==> current_slot_spec(day@.slots, minute_of_day) is None,
    {
        let ghost slots = day.slots.deep_view();
        let mut best: Option<(usize, u32)> = None;
        let mut i: usize = 0;
        while i < day.slots.len()
            invariant
                i <= day.slots.len(),
                slots == day.slots.deep_view(),
                current_slot_from(slots, minute_of_day, 0, None) == current_slot_from(
                    slots,
                    minute_of_day,
                    i as int,
                    match best {
                        Some(b) => Some((b.0 as int, b.1)),
                        None => None,
                    },
                ),
            decreases day.slots.len() - i,
        {
            assert(slots[i as int] == day.slots[i as int]@);
            if let Some(start) = day.slots[i].start_min {
                let better = match best {
                    None => true,
                    Some(b) => start >= b.1,
                };
                if start <= minute_of_day && better {
                    best = Some((i, start));
                }
            }
            i += 1;
        }
        match best {
            Some(b) => Some(b.0),
            None => None,
        }
    }

    /// Matches an **already normalised** on-air name with a slot of the day, through
    /// `aliasMap`.
    pub fn match_slot_by_name(&self, day: &ScheduleDay, normalized_show: &str) -> (r: Option<usize>)
        ensures
            r matches Some(i) ==> match_slot_from(
                self.alias_map.deep_view(),
                day@.slots,
                canonical_spec(self.alias_map.deep_view(), normalized_show@),
                0,
            ) == Some(i as int),
            r is None ==> match_slot_from(
                self.alias_map.deep_view(),
                day@.slots,
                canonical_spec(self.alias_map.deep_view(), normalized_show@),
                0,
            ) is None,
    {
        let target = self.canonical(normalized_show);
        let ghost slots = day.slots.deep_view();
        let ghost pairs = self.alias_map.deep_view();
        let mut i: usize = 0;
        while i < day.slots.len()
            invariant
                i <= day.slots.len(),
                slots == day.slots.deep_view(),
                pairs == self.alias_map.deep_view(),
                target@ == canonical_spec(pairs, normalized_show@),
                match_slot_from(pairs, slots, target@, 0) == match_slot_from(
                    pairs,
                    slots,
                    target@,
                    i as int,
                ),
            decreases day.slots.len() - i,
        {
            assert(slots[i as int] == day.slots[i as int]@);
            let n = normalize_comparable(day.slots[i].title.as_str());
            let c = self.canonical(n.as_str());
            if str_eq(c.as_str(), target.as_str()) {
                return Some(i);
            }
            i += 1;
        }
        None
    }
}

} // verus!
