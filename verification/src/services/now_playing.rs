//! `nowplaying.json`: the track on air, tolerant to schema variants: key aliases, DIRECT
//! detection on the **raw** fields before any split, artist/title split, album/year taken
//! from the title.
use vstd::prelude::*;

use crate::json::{get, json_document, json_get, parse_json, Json};
use crate::pattern::{
    find, group, group_of, is_match, last_captures, regex_first_match,
    regex_last_captures, regex_matches,
};
use crate::services::history::{metadata_line_of, metadata_line_spec};
use crate::text::{
    chars_of, find_chars, first_occurrence, push_all, string_from_chars, sub_chars, trim,
    trim_chars, trim_str,
};

verus! {

/// Track on air, after normalisation.
#[derive(Debug, Clone, Default, PartialEq, Eq)]
pub struct NowPlaying {
    pub artist: String,
    pub title: String,
    pub album: String,
    pub year: String,
    /// Live show detected (BUTT convention) on the raw fields.
    pub is_live: bool,
}

/// Mathematical model of `NowPlaying`.
pub struct NowPlayingView {
    pub artist: Seq<char>,
    pub title: Seq<char>,
    pub album: Seq<char>,
    pub year: Seq<char>,
    pub is_live: bool,
}

impl View for NowPlaying {
    type V = NowPlayingView;

    open spec fn view(&self) -> NowPlayingView {
        NowPlayingView {
            artist: self.artist@,
            title: self.title@,
            album: self.album@,
            year: self.year@,
            is_live: self.is_live,
        }
    }
}

// ───────────────────────────── patterns and keys ─────────────────────────────

pub open spec fn title_direct_pattern() -> Seq<char> {
    "(?i)^DIRECT\\s*-"@
}

pub open spec fn artist_direct_pattern() -> Seq<char> {
    "(?i)\\(\\s*DIRECT\\s*\\)"@
}

pub open spec fn year_pattern() -> Seq<char> {
    "(19|20)\\d{2}"@
}

pub open spec fn paren_pattern() -> Seq<char> {
    "\\(([^()]*)\\)"@
}

pub open spec fn trailing_punct_pattern() -> Seq<char> {
    "[,;/\\-]\\s*$"@
}

/// Keys of the sub-objects searched after the root, in order.
pub open spec fn sub_scope_key(k: int) -> Seq<char> {
    if k == 0 {
        "now_playing"@
    } else if k == 1 {
        "nowPlaying"@
    } else if k == 2 {
        "song"@
    } else if k == 3 {
        "track"@
    } else if k == 4 {
        "current"@
    } else {
        "data"@
    }
}

fn sub_scope_key_exec(k: usize) -> (r: &'static str)
    requires
        k < 6,
    ensures
        r@ == sub_scope_key(k as int),
{
    if k == 0 {
        "now_playing"
    } else if k == 1 {
        "nowPlaying"
    } else if k == 2 {
        "song"
    } else if k == 3 {
        "track"
    } else if k == 4 {
        "current"
    } else {
        "data"
    }
}

/// Search scope `k` (0..8): the root, then the sub-objects `now_playing`, `nowPlaying`,
/// `song`, `track`, `current`, `data`, then `now_playing.song`; absent or non-object
/// scopes are skipped.
pub open spec fn scope(value: Json, k: int) -> Option<Json> {
    if k == 0 {
        Some(value)
    } else if 1 <= k <= 6 {
        match get(value, sub_scope_key(k - 1)) {
            Some(sub) => if sub is Object {
                Some(sub)
            } else {
                None
            },
            None => None,
        }
    } else if k == 7 {
        match get(value, "now_playing"@) {
            Some(np) => match get(np, "song"@) {
                Some(song) => if song is Object {
                    Some(song)
                } else {
                    None
                },
                None => None,
            },
            None => None,
        }
    } else {
        None
    }
}

fn scope_exec<'a>(value: &'a Json, k: usize) -> (r: Option<&'a Json>)
    requires
        k < 8,
    ensures
        r is Some <==> scope(*value, k as int) is Some,
        r matches Some(s) ==> scope(*value, k as int) == Some(*s),
{
    if k == 0 {
        Some(value)
    } else if k <= 6 {
        match json_get(value, sub_scope_key_exec(k - 1)) {
            Some(sub) => match sub {
                Json::Object(_) => Some(sub),
                _ => None,
            },
            None => None,
        }
    } else {
        match json_get(value, "now_playing") {
            Some(np) => match json_get(np, "song") {
                Some(song) => match song {
                    Json::Object(_) => Some(song),
                    _ => None,
                },
                None => None,
            },
            None => None,
        }
    }
}

/// A non-blank string (trimmed) or a number (its text) at `key`.
pub open spec fn string_at(scope: Json, key: Seq<char>) -> Option<Seq<char>> {
    match get(scope, key) {
        Some(Json::Str(s)) => if trim(s@).len() > 0 {
            Some(trim(s@))
        } else {
            None
        },
        Some(Json::Number(n)) => Some(n.text@),
        _ => None,
    }
}

fn string_at_exec(scope: &Json, key: &str) -> (r: Option<Vec<char>>)
    ensures
        r is Some <==> string_at(*scope, key@) is Some,
        r matches Some(v) ==> string_at(*scope, key@) == Some(v@),
{
    match json_get(scope, key) {
        Some(Json::Str(s)) => {
            let t = trim_str(s.as_str());
            if t.len() > 0 {
                Some(t)
            } else {
                None
            }
        },
        Some(Json::Number(n)) => Some(chars_of(n.text.as_str())),
        _ => None,
    }
}

/// First value found, scopes in order, then keys in order (`keys` from position `i`
/// within scope `k`).
pub open spec fn lookup_from(value: Json, keys: Seq<&str>, k: int, i: int) -> Seq<char>
    decreases 8 - k, keys.len() - i,
{
    if k < 0 || k >= 8 {
        seq![]
    } else if i < 0 || i >= keys.len() {
        lookup_from(value, keys, k + 1, 0)
    } else {
        match scope(value, k) {
            None => lookup_from(value, keys, k + 1, 0),
            Some(s) => match string_at(s, keys[i]@) {
                Some(found) => found,
                None => lookup_from(value, keys, k, i + 1),
            },
        }
    }
}

pub open spec fn lookup(value: Json, keys: Seq<&str>) -> Seq<char> {
    lookup_from(value, keys, 0, 0)
}

fn lookup_exec(value: &Json, keys: &[&str]) -> (r: Vec<char>)
    ensures
        r@ == lookup(*value, keys@),
{
    let mut k: usize = 0;
    while k < 8
        invariant
            k <= 8,
            lookup(*value, keys@) == lookup_from(*value, keys@, k as int, 0),
        decreases 8 - k,
    {
        match scope_exec(value, k) {
            None => {},
            Some(s) => {
                let mut i: usize = 0;
                while i < keys.len()
                    invariant
                        k < 8,
                        i <= keys@.len(),
                        scope(*value, k as int) == Some(*s),
                        lookup(*value, keys@) == lookup_from(*value, keys@, k as int, i as int),
                    decreases keys@.len() - i,
                {
                    if let Some(found) = string_at_exec(s, keys[i]) {
                        return found;
                    }
                    i += 1;
                }
            },
        }
        k += 1;
    }
    Vec::new()
}

// ───────────────────────────── derived fields ─────────────────────────────

/// A year `(19|20)\d{2}` found in a value (e.g. a date), else the trimmed value.
pub open spec fn normalize_year(raw: Seq<char>) -> Seq<char> {
    if raw.len() == 0 {
        seq![]
    } else {
        match regex_first_match(year_pattern(), raw) {
            Some(m) => m.1,
            None => trim(raw),
        }
    }
}

fn normalize_year_exec(raw: &[char]) -> (r: Vec<char>)
    ensures
        r@ == normalize_year(raw@),
{
    if raw.len() == 0 {
        return Vec::new();
    }
    let s = string_from_chars(raw);
    match find("(19|20)\\d{2}", s.as_str()) {
        Some((_, m, _)) => chars_of(m.as_str()),
        None => trim_chars(raw),
    }
}

/// `text` without the first match of `pattern` (`Regex::replace(text, "")`).
pub open spec fn remove_first_match(pattern: Seq<char>, text: Seq<char>) -> Seq<char> {
    match regex_first_match(pattern, text) {
        Some(m) => m.0 + m.2,
        None => text,
    }
}

pub fn remove_first_match_exec(pattern: &str, text: &[char]) -> (r: Vec<char>)
    ensures
        r@ == remove_first_match(pattern@, text@),
{
    let s = string_from_chars(text);
    match find(pattern, s.as_str()) {
        Some((before, _, after)) => {
            let mut r = chars_of(before.as_str());
            let a = chars_of(after.as_str());
            push_all(&mut r, a.as_slice());
            r
        },
        None => sub_chars(text, 0, text.len()),
    }
}

/// `text` without the first occurrence of `needle` (`str::replacen(needle, "", 1)`).
pub open spec fn remove_first_occurrence(text: Seq<char>, needle: Seq<char>) -> Seq<char> {
    match first_occurrence(text, needle) {
        Some(i) => text.subrange(0, i) + text.subrange(i + needle.len(), text.len() as int),
        None => text,
    }
}

fn remove_first_occurrence_exec(text: &[char], needle: &[char]) -> (r: Vec<char>)
    ensures
        r@ == remove_first_occurrence(text@, needle@),
{
    match find_chars(text, needle) {
        Some(i) => {
            let n = text.len();
            let m = needle.len();
            assert(i + m <= n);
            let mut r = sub_chars(text, 0, i);
            let rest = sub_chars(text, i + m, n);
            push_all(&mut r, rest.as_slice());
            r
        },
        None => sub_chars(text, 0, text.len()),
    }
}

/// From the title: the last `(...)` group; year = `(19|20)\d{2}` inside it, album = the
/// rest of the group without trailing `[,;/-]` punctuation.
pub open spec fn extract_album_year(title: Seq<char>) -> Option<(Seq<char>, Seq<char>)> {
    match regex_last_captures(paren_pattern(), title) {
        None => None,
        Some(g) => match group(g, 1) {
            None => None,
            Some(raw) => {
                let content = trim(raw);
                let year = match regex_first_match(year_pattern(), content) {
                    Some(m) => m.1,
                    None => seq![],
                };
                let album = if year.len() == 0 {
                    content
                } else {
                    remove_first_occurrence(content, year)
                };
                Some((trim(remove_first_match(trailing_punct_pattern(), trim(album))), year))
            },
        },
    }
}

fn extract_album_year_exec(title: &[char]) -> (r: Option<(Vec<char>, Vec<char>)>)
    ensures
        r is Some <==> extract_album_year(title@) is Some,
        r matches Some(p) ==> extract_album_year(title@) == Some((p.0@, p.1@)),
{
    let t = string_from_chars(title);
    let g = match last_captures("\\(([^()]*)\\)", t.as_str()) {
        Some(g) => g,
        None => return None,
    };
    let raw = match group_of(&g, 1) {
        Some(raw) => raw,
        None => return None,
    };
    let content = trim_str(raw.as_str());
    let content_s = string_from_chars(content.as_slice());
    let year: Vec<char> = match find("(19|20)\\d{2}", content_s.as_str()) {
        Some((_, m, _)) => chars_of(m.as_str()),
        None => Vec::new(),
    };
    let album = if year.len() == 0 {
        content
    } else {
        remove_first_occurrence_exec(content.as_slice(), year.as_slice())
    };
    let album_t = trim_chars(album.as_slice());
    let stripped = remove_first_match_exec("[,;/\\-]\\s*$", album_t.as_slice());
    Some((trim_chars(stripped.as_slice()), year))
}

/// The em-dash separator ` — ` and the hyphen separator ` - `.
pub open spec fn em_separator() -> Seq<char> {
    seq![' ', '\u{2014}', ' ']
}

pub open spec fn hyphen_separator() -> Seq<char> {
    seq![' ', '-', ' ']
}

/// Artist/title split when the artist is empty: at the first ` — `, else the first ` - `.
pub open spec fn split_artist_title(artist: Seq<char>, title: Seq<char>) -> (Seq<char>, Seq<char>) {
    if artist.len() == 0 && title.len() > 0 {
        match first_occurrence(title, em_separator()) {
            Some(i) => (trim(title.subrange(0, i)), trim(title.subrange(i + 3, title.len() as int))),
            None => match first_occurrence(title, hyphen_separator()) {
                Some(i) => (
                    trim(title.subrange(0, i)),
                    trim(title.subrange(i + 3, title.len() as int)),
                ),
                None => (artist, title),
            },
        }
    } else {
        (artist, title)
    }
}

fn split_at_separator(title: &[char], sep: &[char]) -> (r: Option<(Vec<char>, Vec<char>)>)
    requires
        sep@.len() == 3,
    ensures
        r is Some <==> first_occurrence(title@, sep@) is Some,
        r matches Some(p) ==> ({
            let i = first_occurrence(title@, sep@)->0;
            p.0@ == trim(title@.subrange(0, i)) && p.1@ == trim(
                title@.subrange(i + 3, title@.len() as int),
            )
        }),
{
    match find_chars(title, sep) {
        Some(i) => {
            let n = title.len();
            assert(i + 3 <= n);
            let before = sub_chars(title, 0, i);
            let after = sub_chars(title, i + 3, n);
            Some((trim_chars(before.as_slice()), trim_chars(after.as_slice())))
        },
        None => None,
    }
}

// ───────────────────────────── parsing ─────────────────────────────

/// The model of one payload object, or `None` when both title and artist are empty.
#[verifier::opaque]
pub open spec fn parse_object_spec(value: Json) -> Option<NowPlayingView> {
    let artist_raw = lookup(
        value,
        seq!["artist", "artist_name", "creator", "author", "performer", "dj", "host"],
    );
    let title_raw = lookup(value, seq!["title", "name", "track", "song", "now_playing"]);
    let album0 = lookup(value, seq!["album", "release", "record"]);
    let year0 = normalize_year(lookup(value, seq!["year", "date", "released", "release_year"]));
    let is_live = regex_matches(title_direct_pattern(), title_raw) || regex_matches(
        artist_direct_pattern(),
        artist_raw,
    );
    let split = split_artist_title(artist_raw, title_raw);
    let artist = split.0;
    let title = split.1;
    let extracted = if album0.len() == 0 || year0.len() == 0 {
        extract_album_year(title)
    } else {
        None
    };
    let album = match extracted {
        Some(e) => if album0.len() == 0 {
            e.0
        } else {
            album0
        },
        None => album0,
    };
    let year = match extracted {
        Some(e) => if year0.len() == 0 {
            e.1
        } else {
            year0
        },
        None => year0,
    };
    if artist.len() == 0 && title.len() == 0 {
        None
    } else {
        Some(NowPlayingView { artist, title, album, year, is_live })
    }
}

fn parse_object(value: &Json) -> (r: Option<NowPlaying>)
    ensures
        r is Some <==> parse_object_spec(*value) is Some,
        r matches Some(np) ==> parse_object_spec(*value) == Some(np@),
{
    reveal(parse_object_spec);
    let artist_keys: [&str; 7] = ["artist", "artist_name", "creator", "author", "performer", "dj", "host"];
    let title_keys: [&str; 5] = ["title", "name", "track", "song", "now_playing"];
    let album_keys: [&str; 3] = ["album", "release", "record"];
    let year_keys: [&str; 4] = ["year", "date", "released", "release_year"];
    assert(artist_keys@ == seq!["artist", "artist_name", "creator", "author", "performer", "dj", "host"]);
    assert(title_keys@ == seq!["title", "name", "track", "song", "now_playing"]);
    assert(album_keys@ == seq!["album", "release", "record"]);
    assert(year_keys@ == seq!["year", "date", "released", "release_year"]);
    let artist_raw = lookup_exec(value, &artist_keys);
    let title_raw = lookup_exec(value, &title_keys);
    let album0 = lookup_exec(value, &album_keys);
    let year_raw = lookup_exec(value, &year_keys);
    let year0 = normalize_year_exec(year_raw.as_slice());

    // a) DIRECT detection on the RAW fields, before any split (BUTT convention).
    let title_raw_s = string_from_chars(title_raw.as_slice());
    let artist_raw_s = string_from_chars(artist_raw.as_slice());
    let is_live = is_match("(?i)^DIRECT\\s*-", title_raw_s.as_str()) || is_match(
        "(?i)\\(\\s*DIRECT\\s*\\)",
        artist_raw_s.as_str(),
    );

    // b) Artist/title split when the artist is empty: ` — ` first, then ` - `.
    let mut artist = artist_raw;
    let mut title = title_raw;
    if artist.len() == 0 && title.len() > 0 {
        let mut em: Vec<char> = Vec::new();
        em.push(' ');
        em.push('\u{2014}');
        em.push(' ');
        let mut hy: Vec<char> = Vec::new();
        hy.push(' ');
        hy.push('-');
        hy.push(' ');
        assert(em@ =~= em_separator());
        assert(hy@ =~= hyphen_separator());
        match split_at_separator(title.as_slice(), em.as_slice()) {
            Some((a, t)) => {
                artist = a;
                title = t;
            },
            None => match split_at_separator(title.as_slice(), hy.as_slice()) {
                Some((a, t)) => {
                    artist = a;
                    title = t;
                },
                None => {},
            },
        }
    }
    // c) Album/year from the title (last parenthesised group), when still empty.
    let mut album = album0;
    let mut year = year0;
    if album.len() == 0 || year.len() == 0 {
        if let Some((extracted_album, extracted_year)) = extract_album_year_exec(title.as_slice()) {
            if album.len() == 0 {
                album = extracted_album;
            }
            if year.len() == 0 {
                year = extracted_year;
            }
        }
    }
    // d) Validity: empty title AND artist → invalid payload.
    if artist.len() == 0 && title.len() == 0 {
        return None;
    }
    Some(
        NowPlaying {
            artist: string_from_chars(artist.as_slice()),
            title: string_from_chars(title.as_slice()),
            album: string_from_chars(album.as_slice()),
            year: string_from_chars(year.as_slice()),
            is_live,
        },
    )
}

/// First decodable candidate, from position `i` on.
pub open spec fn first_object_from(items: Seq<Json>, i: int) -> Option<NowPlayingView>
    decreases items.len() - i,
{
    if i < 0 || i >= items.len() {
        None
    } else {
        match parse_object_spec(items[i]) {
            Some(np) => Some(np),
            None => first_object_from(items, i + 1),
        }
    }
}

/// The model of a payload: an object, or an array whose first decodable element is used.
pub open spec fn parse_value_spec(root: Json) -> Option<NowPlayingView> {
    match root {
        Json::Array(items) => first_object_from(items@, 0),
        _ => parse_object_spec(root),
    }
}

/// The live flag as the raw fields give it: « DIRECT - … » at the start of the looked-up
/// title, or « (DIRECT) » in the looked-up artist, before any artist/title split.
pub open spec fn direct_on_raw_fields(v: Json) -> bool {
    regex_matches(title_direct_pattern(), lookup(v, seq!["title", "name", "track", "song", "now_playing"]))
        || regex_matches(
        artist_direct_pattern(),
        lookup(v, seq!["artist", "artist_name", "creator", "author", "performer", "dj", "host"]),
    )
}

/// Artist and title of a decoded object are the « Artist - Title » split of its raw
/// looked-up artist and title, and its live flag is read on those raw fields; an album or
/// a year that the payload fills in is kept as given (the year normalised).
pub open spec fn fields_from_raw(v: Json, np: NowPlayingView) -> bool {
    &&& np.is_live == direct_on_raw_fields(v)
    &&& lookup(v, seq!["album", "release", "record"]).len() > 0 ==> np.album == lookup(
        v,
        seq!["album", "release", "record"],
    )
    &&& normalize_year(lookup(v, seq!["year", "date", "released", "release_year"])).len() > 0
        ==> np.year == normalize_year(lookup(v, seq!["year", "date", "released", "release_year"]))
    &&& (np.artist, np.title) == split_artist_title(
        lookup(v, seq!["artist", "artist_name", "creator", "author", "performer", "dj", "host"]),
        lookup(v, seq!["title", "name", "track", "song", "now_playing"]),
    )
}

proof fn lemma_first_object_from(items: Seq<Json>, i: int)
    requires
        0 <= i,
    ensures
        first_object_from(items, i) matches Some(np) ==> exists|k: int|
            i <= k < items.len() && #[trigger] parse_object_spec(items[k]) == Some(np),
    decreases items.len() - i,
{
    if i < items.len() {
        lemma_first_object_from(items, i + 1);
    }
}

/// Live detection runs on the raw title and artist looked up in the payload, before the
/// « Artist - Title » split: a decoded object is live exactly when its raw title starts
/// with « DIRECT - » or its raw artist holds « (DIRECT) », whatever the split then makes
/// of them (so a live title without an artist is still live); its artist and title are
/// the split of those same raw fields. For an array, this holds of the element that was
/// decoded.
pub proof fn live_flag_comes_from_raw_fields(root: Json)
    ensures
        parse_value_spec(root) matches Some(np) ==> match root {
            Json::Array(items) => exists|k: int|
                0 <= k < items@.len() && #[trigger] parse_object_spec(items@[k]) == Some(np)
                    && fields_from_raw(items@[k], np),
            _ => fields_from_raw(root, np),
        },
{
    match root {
        Json::Array(items) => {
            lemma_first_object_from(items@, 0);
            if let Some(np) = parse_value_spec(root) {
                let k = choose|k: int| 0 <= k < items@.len() && #[trigger] parse_object_spec(items@[k]) == Some(np);
                reveal(parse_object_spec);
                assert(fields_from_raw(items@[k], np));
            }
        },
        _ => {
            reveal(parse_object_spec);
        },
    }
}

/// Reads a parsed payload (object, or array whose first decodable element is used).
#[verifier::loop_isolation(false)]
pub fn parse_value(root: &Json) -> (r: Option<NowPlaying>)
    ensures
        r is Some <==> parse_value_spec(*root) is Some,
        r matches Some(np) ==> parse_value_spec(*root) == Some(np@),
{
    match root {
        Json::Array(items) => {
            let mut i: usize = 0;
            while i < items.len()
                invariant
                    i <= items@.len(),
                    first_object_from(items@, 0) == first_object_from(items@, i as int),
                decreases items@.len() - i,
            {
                if let Some(np) = parse_object(&items[i]) {
                    return Some(np);
                }
                i += 1;
            }
            None
        },
        _ => parse_object(root),
    }
}

/// What `parse` returns for a text.
pub open spec fn parse_spec(data: Seq<char>) -> Option<NowPlayingView> {
    match json_document(data) {
        Some(root) => parse_value_spec(root),
        None => None,
    }
}

/// Parses the payload (object, or array whose first decodable element is used).
pub fn parse(data: &str) -> (r: Option<NowPlaying>)
    ensures
        r is Some <==> parse_spec(data@) is Some,
        r matches Some(np) ==> parse_spec(data@) == Some(np@),
{
    match parse_json(data) {
        Some(root) => parse_value(&root),
        None => None,
    }
}

/// Fallback shown for an empty title.
pub open spec fn unavailable_title() -> Seq<char> {
    "Titre indisponible pour l'instant"@
}

impl NowPlaying {
    /// Title to display: « Titre indisponible pour l'instant » when empty.
    pub fn display_title(&self) -> (r: &str)
        ensures
            self.title@.len() == 0 ==> r@ == unavailable_title(),
            self.title@.len() > 0 ==> r@ == self.title@,
    {
        if self.title.as_str().is_empty() {
            "Titre indisponible pour l'instant"
        } else {
            self.title.as_str()
        }
    }

    /// Secondary line: `[artist, album, year]` non-empty, joined by ` • ` (may be empty).
    pub fn metadata_line(&self) -> (r: String)
        ensures
            r@ == metadata_line_spec(self.artist@, self.album@, self.year@),
    {
        metadata_line_of(self.artist.as_str(), self.album.as_str(), self.year.as_str())
    }
}

} // verus!
