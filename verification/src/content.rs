//! Models of the shared editorial content (news, schedule, voices) and image resolution.
//! Plain structures; the parsing lives in `services::{news, schedule, voices}`.
use vstd::prelude::*;
use vstd::string::StrSliceExecFns;

use crate::text::{
    chars_of, is_digit, push_all, starts_with, starts_with_chars, string_from_chars,
    sub_chars, trim, trim_str,
};

verus! {

broadcast use vstd::string::group_string_axioms;

/// Resolved image: absolute URL (when there is a path) + base name (for an embedded
/// fallback).
#[derive(Debug, Clone, Default, PartialEq, Eq)]
pub struct ContentImage {
    /// Absolute URL ready to load (`None` for an empty path).
    pub url: Option<String>,
    /// Base name without extension (to find an embedded image offline).
    pub base_name: Option<String>,
    /// `imageFit == "contain"` → *fit* display; otherwise *fill*.
    pub fit_contain: bool,
}

/// Mathematical model of `ContentImage`.
pub struct ContentImageView {
    pub url: Option<Seq<char>>,
    pub base_name: Option<Seq<char>>,
    pub fit_contain: bool,
}

pub open spec fn opt_view(o: Option<String>) -> Option<Seq<char>> {
    match o {
        Some(s) => Some(s@),
        None => None,
    }
}

impl View for ContentImage {
    type V = ContentImageView;

    open spec fn view(&self) -> ContentImageView {
        ContentImageView {
            url: opt_view(self.url),
            base_name: opt_view(self.base_name),
            fit_contain: self.fit_contain,
        }
    }
}

/// Position of the last `c` in `s`, searching below `end`.
pub open spec fn last_index_below(s: Seq<char>, c: char, end: int) -> Option<int>
    decreases end,
{
    if end <= 0 || end > s.len() {
        None
    } else if s[end - 1] == c {
        Some(end - 1)
    } else {
        last_index_below(s, c, end - 1)
    }
}

pub open spec fn last_index_of(s: Seq<char>, c: char) -> Option<int> {
    last_index_below(s, c, s.len() as int)
}

pub fn last_index_of_exec(s: &[char], c: char) -> (r: Option<usize>)
    ensures
        r matches Some(i) ==> Some(i as int) == last_index_of(s@, c) && i < s@.len(),
        r is None ==> last_index_of(s@, c) is None,
{
    let mut end = s.len();
    while end > 0
        invariant
            end <= s@.len(),
            last_index_of(s@, c) == last_index_below(s@, c, end as int),
        decreases end,
    {
        if s[end - 1] == c {
            return Some(end - 1);
        }
        end -= 1;
    }
    None
}

/// Last path component without its extension (`assets/media/x/foo.webp` → `foo`);
/// `None` when that is empty.
pub open spec fn base_name_spec(path: Seq<char>) -> Option<Seq<char>> {
    let file = match last_index_of(path, '/') {
        Some(i) => path.subrange(i + 1, path.len() as int),
        None => path,
    };
    let stem = match last_index_of(file, '.') {
        Some(j) => file.subrange(0, j),
        None => file,
    };
    if stem.len() > 0 {
        Some(stem)
    } else {
        None
    }
}

fn base_name_without_ext(path: &[char]) -> (r: Option<String>)
    ensures
        opt_view(r) == base_name_spec(path@),
{
    let n = path.len();
    let file = match last_index_of_exec(path, '/') {
        Some(i) => sub_chars(path, i + 1, n),
        None => sub_chars(path, 0, n),
    };
    assert(path@.subrange(0, n as int) == path@);
    let stem = match last_index_of_exec(file.as_slice(), '.') {
        Some(j) => sub_chars(file.as_slice(), 0, j),
        None => file,
    };
    if stem.len() > 0 {
        Some(string_from_chars(stem.as_slice()))
    } else {
        None
    }
}

/// What `ContentImage::resolve` returns: empty → no image; absolute `http(s)://` → as
/// is; relative → `base_url + path`.
pub open spec fn resolve_spec(raw: Seq<char>, base_url: Seq<char>, fit_contain: bool) -> ContentImageView {
    let r = trim(raw);
    if r.len() == 0 {
        ContentImageView { url: None, base_name: None, fit_contain }
    } else {
        ContentImageView {
            url: Some(
                if starts_with(r, "http://"@) || starts_with(r, "https://"@) {
                    r
                } else {
                    base_url + r
                },
            ),
            base_name: base_name_spec(r),
            fit_contain,
        }
    }
}

impl ContentImage {
    /// Resolves an image path against the content base.
    /// Empty → no image; absolute `http(s)://` → as is; relative → `base_url + path`.
    pub fn resolve(raw: &str, base_url: &str, fit_contain: bool) -> (r: ContentImage)
        ensures
            r@ == resolve_spec(raw@, base_url@, fit_contain),
    {
        let t = trim_str(raw);
        if t.len() == 0 {
            return ContentImage { url: None, base_name: None, fit_contain };
        }
        let http = chars_of("http://");
        let https = chars_of("https://");
        let url = if starts_with_chars(t.as_slice(), http.as_slice()) || starts_with_chars(
            t.as_slice(),
            https.as_slice(),
        ) {
            string_from_chars(t.as_slice())
        } else {
            let mut u = chars_of(base_url);
            push_all(&mut u, t.as_slice());
            string_from_chars(u.as_slice())
        };
        ContentImage { base_name: base_name_without_ext(t.as_slice()), url: Some(url), fit_contain }
    }
}

/// One news item (the fields used; HTML is ignored, plain text is taken).
#[derive(Debug, Clone, Default, PartialEq, Eq)]
pub struct NewsEntry {
    pub stable_id: String,
    pub title: String,
    pub sort_key: String,
    pub date_label: String,
    pub lead: String,
    pub body: String,
}

/// Mathematical model of `NewsEntry`.
pub struct NewsEntryView {
    pub stable_id: Seq<char>,
    pub title: Seq<char>,
    pub sort_key: Seq<char>,
    pub date_label: Seq<char>,
    pub lead: Seq<char>,
    pub body: Seq<char>,
}

impl View for NewsEntry {
    type V = NewsEntryView;

    open spec fn view(&self) -> NewsEntryView {
        NewsEntryView {
            stable_id: self.stable_id@,
            title: self.title@,
            sort_key: self.sort_key@,
            date_label: self.date_label@,
            lead: self.lead@,
            body: self.body@,
        }
    }
}

impl DeepView for NewsEntry {
    type V = NewsEntryView;

    open spec fn deep_view(&self) -> NewsEntryView {
        self@
    }
}

/// Year of a `sortKey` (`YYYY-MM-...`): its first four characters, when they are ASCII
/// digits.
pub open spec fn year_of(sort_key: Seq<char>) -> Option<Seq<char>> {
    if sort_key.len() >= 4 && is_digit(sort_key[0]) && is_digit(sort_key[1]) && is_digit(
        sort_key[2],
    ) && is_digit(sort_key[3]) {
        Some(sort_key.subrange(0, 4))
    } else {
        None
    }
}

pub open spec fn is_digit_byte(b: u8) -> bool {
    48 <= b <= 57
}

/// Month (1..12) of a `sortKey` (`YYYY-MM-...`), read from its UTF-8 bytes 5..7 as
/// `u32::from_str` does (`dd` or `+d`).
pub open spec fn month_of(bytes: Seq<u8>) -> Option<u32> {
    if bytes.len() < 7 {
        None
    } else {
        let b5 = bytes[5];
        let b6 = bytes[6];
        let v: int = if is_digit_byte(b5) && is_digit_byte(b6) {
            (b5 - 48) * 10 + (b6 - 48)
        } else if b5 == 43 && is_digit_byte(b6) {
            b6 - 48
        } else {
            0
        };
        if 1 <= v <= 12 {
            Some(v as u32)
        } else {
            None
        }
    }
}

impl NewsEntry {
    /// Year taken from `sortKey` (`YYYY-MM-...`).
    pub fn year(&self) -> (r: Option<&str>)
        ensures
            r is Some <==> year_of(self.sort_key@) is Some,
            r matches Some(y) ==> year_of(self.sort_key@) == Some(y@),
    {
        let k = self.sort_key.as_str();
        let n = k.unicode_len();
        if n < 4 {
            return None;
        }
        let mut i: usize = 0;
        while i < 4
            invariant
                i <= 4,
                n >= 4,
                n == k@.len(),
                k@ == self.sort_key@,
                forall|m: int| 0 <= m < i ==> is_digit(#[trigger] k@[m]),
            decreases 4 - i,
        {
            let c = k.get_char(i);
            if !('0' <= c && c <= '9') {
                return None;
            }
            i += 1;
        }
        Some(k.substring_char(0, 4))
    }

    /// Month (1..12) taken from `sortKey` (`YYYY-MM-...`).
    pub fn month(&self) -> (r: Option<u32>)
        ensures
            r == month_of(vstd::utf8::encode_utf8(self.sort_key@)),
    {
        let b = self.sort_key.as_str().as_bytes();
        if b.len() < 7 {
            return None;
        }
        let b5 = b[5];
        let b6 = b[6];
        let v: u32 = if 48 <= b5 && b5 <= 57 && 48 <= b6 && b6 <= 57 {
            (b5 - 48) as u32 * 10 + (b6 - 48) as u32
        } else if b5 == 43 && 48 <= b6 && b6 <= 57 {
            (b6 - 48) as u32
        } else {
            0
        };
        if 1 <= v && v <= 12 {
            Some(v)
        } else {
            None
        }
    }
}

/// One slot of the schedule.
#[derive(Debug, Clone, Default, PartialEq, Eq)]
pub struct ScheduleSlot {
    /// Display time (`"07h00"`, `"Puis"`…).
    pub time: String,
    pub title: String,
    pub desc: String,
    pub meta: bool,
    pub highlight: bool,
    pub badge: Option<String>,
    pub kind: String,
    /// Start in minutes since midnight (Paris), when known.
    pub start_min: Option<u32>,
    /// End in minutes since midnight (Paris), when known.
    pub end_min: Option<u32>,
}

/// Mathematical model of `ScheduleSlot`.
pub struct ScheduleSlotView {
    pub time: Seq<char>,
    pub title: Seq<char>,
    pub desc: Seq<char>,
    pub meta: bool,
    pub highlight: bool,
    pub badge: Option<Seq<char>>,
    pub kind: Seq<char>,
    pub start_min: Option<u32>,
    pub end_min: Option<u32>,
}

impl View for ScheduleSlot {
    type V = ScheduleSlotView;

    open spec fn view(&self) -> ScheduleSlotView {
        ScheduleSlotView {
            time: self.time@,
            title: self.title@,
            desc: self.desc@,
            meta: self.meta,
            highlight: self.highlight,
            badge: opt_view(self.badge),
            kind: self.kind@,
            start_min: self.start_min,
            end_min: self.end_min,
        }
    }
}

impl DeepView for ScheduleSlot {
    type V = ScheduleSlotView;

    open spec fn deep_view(&self) -> ScheduleSlotView {
        self@
    }
}

/// One day of the schedule.
#[derive(Debug, Clone, Default, PartialEq, Eq)]
pub struct ScheduleDay {
    pub id: String,
    pub name: String,
    pub short_name: String,
    pub summary: String,
    pub slots: Vec<ScheduleSlot>,
}

/// Mathematical model of `ScheduleDay`.
pub struct ScheduleDayView {
    pub id: Seq<char>,
    pub name: Seq<char>,
    pub short_name: Seq<char>,
    pub summary: Seq<char>,
    pub slots: Seq<ScheduleSlotView>,
}

impl View for ScheduleDay {
    type V = ScheduleDayView;

    open spec fn view(&self) -> ScheduleDayView {
        ScheduleDayView {
            id: self.id@,
            name: self.name@,
            short_name: self.short_name@,
            summary: self.summary@,
            slots: self.slots.deep_view(),
        }
    }
}

impl DeepView for ScheduleDay {
    type V = ScheduleDayView;

    open spec fn deep_view(&self) -> ScheduleDayView {
        self@
    }
}

/// One voice (producer / project).
#[derive(Debug, Clone, Default, PartialEq, Eq)]
pub struct ProducerProfile {
    pub name: String,
    pub role: String,
    pub bio: String,
    pub image: ContentImage,
    pub href: Option<String>,
}

/// Mathematical model of `ProducerProfile`.
pub struct ProducerProfileView {
    pub name: Seq<char>,
    pub role: Seq<char>,
    pub bio: Seq<char>,
    pub image: ContentImageView,
    pub href: Option<Seq<char>>,
}

impl View for ProducerProfile {
    type V = ProducerProfileView;

    open spec fn view(&self) -> ProducerProfileView {
        ProducerProfileView {
            name: self.name@,
            role: self.role@,
            bio: self.bio@,
            image: self.image@,
            href: opt_view(self.href),
        }
    }
}

impl DeepView for ProducerProfile {
    type V = ProducerProfileView;

    open spec fn deep_view(&self) -> ProducerProfileView {
        self@
    }
}

/// One show / format.
#[derive(Debug, Clone, Default, PartialEq, Eq)]
pub struct StationShow {
    pub title: String,
    pub meta: String,
    pub text: String,
    pub image: ContentImage,
    pub href: Option<String>,
    pub action_label: String,
}

/// Mathematical model of `StationShow`.
pub struct StationShowView {
    pub title: Seq<char>,
    pub meta: Seq<char>,
    pub text: Seq<char>,
    pub image: ContentImageView,
    pub href: Option<Seq<char>>,
    pub action_label: Seq<char>,
}

impl View for StationShow {
    type V = StationShowView;

    open spec fn view(&self) -> StationShowView {
        StationShowView {
            title: self.title@,
            meta: self.meta@,
            text: self.text@,
            image: self.image@,
            href: opt_view(self.href),
            action_label: self.action_label@,
        }
    }
}

impl DeepView for StationShow {
    type V = StationShowView;

    open spec fn deep_view(&self) -> StationShowView {
        self@
    }
}

} // verus!
