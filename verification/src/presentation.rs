//! What the screens show, decided from the station state: the on-air chrome (status card
//! and player bar), desktop notifications on track changes, the news archive navigation
//! by year and month, French date labels, and small display rules of the screens.
use vstd::prelude::*;

use crate::antenne::{label_spec, resolve, resolve_spec, AntenneState};
use crate::content::{month_of, year_of, NewsEntry, NewsEntryView};
use crate::player::StreamHealth;
use crate::services::current_show::elapsed_text_spec;
use crate::services::data_store::DataStore;
use crate::services::now_playing::unavailable_title;
use crate::services::history::metadata_line_spec;
use crate::text::{
    chars_eq, chars_lt, chars_of, decimal, is_ws, lemma_seq_lt_total,
    lemma_seq_lt_transitive, push_all, push_str, seq_lt, string_from_chars, u64_decimal,
};

verus! {

// ───────────────────────────── on-air chrome ─────────────────────────────

/// Icon of the play button while not playing.
pub const PLAY_ICON: &'static str = "media-playback-start-symbolic";
/// Icon of the play button while playing.
pub const PAUSE_ICON: &'static str = "media-playback-pause-symbolic";

/// What the status card and the player bar show.
pub struct ChromeView {
    /// The on-air state.
    pub state: AntenneState,
    /// Text under the signal pill; empty means hidden.
    pub conditional: String,
    /// Title block of the player bar.
    pub bar_title: String,
    /// Secondary line of the player bar.
    pub bar_subtitle: String,
    /// Text of the state indicator.
    pub indicator_text: &'static str,
    /// Whether the dots pulse (only « à l'antenne »).
    pub pulse: bool,
    /// Icon of the play button.
    pub play_icon: &'static str,
    /// Tooltip and accessible label of the play button.
    pub play_label: &'static str,
}

/// The text under the signal pill.
pub open spec fn conditional_spec(store: DataStore, health: StreamHealth, playing: bool, now_unix: i64) -> Seq<char> {
    if store.live() {
        match store.current_show {
            Some(cs) => match elapsed_text_spec(cs.since, now_unix) {
                Some(e) => "Direct en cours "@ + e,
                None => "Direct en cours"@,
            },
            None => "Direct en cours"@,
        }
    } else if health == StreamHealth::Failed && playing {
        "Problème de lecture du flux audio."@
    } else {
        Seq::empty()
    }
}

/// The title block of the player bar.
pub open spec fn bar_title_spec(store: DataStore) -> Seq<char> {
    match store.now_playing {
        Some(np) => if np.title@.len() == 0 {
            unavailable_title()
        } else {
            np.title@
        },
        None => "Chargement des métadonnées…"@,
    }
}

/// The secondary line of the player bar.
pub open spec fn bar_subtitle_spec(store: DataStore) -> Seq<char> {
    match store.now_playing {
        Some(np) => {
            let line = metadata_line_spec(np.artist@, np.album@, np.year@);
            if line.len() == 0 {
                "programmation en cours"@
            } else {
                line
            }
        },
        None => "programmation en cours"@,
    }
}

/// Computes the chrome from the player (health, intent, label) and the data (live flag,
/// freshness at `now`, metadata), with `now_unix` the wall clock in epoch seconds.
pub fn chrome_view(
    health: StreamHealth,
    playing: bool,
    player_text: &'static str,
    store: &DataStore,
    now: u64,
    now_unix: i64,
) -> (r: ChromeView)
    requires
        now_unix >= 0,
    ensures
        r.state == resolve_spec(health, store.live(), playing, store.fresh_at(now)),
        r.conditional@ == conditional_spec(*store, health, playing, now_unix),
        r.bar_title@ == bar_title_spec(*store),
        r.bar_subtitle@ == bar_subtitle_spec(*store),
        r.state == AntenneState::Connexion ==> r.indicator_text == player_text,
        r.state != AntenneState::Connexion ==> r.indicator_text@ == label_spec(r.state),
        r.pulse == (r.state == AntenneState::ALAntenne),
        r.play_icon == (if playing { PAUSE_ICON } else { PLAY_ICON }),
        r.play_label@ == (if playing {
            "Mettre le direct en pause"@
        } else {
            "Lancer le direct"@
        }),
{
    let live = store.is_live();
    let state = resolve(health, live, playing, store.metadata_fresh(now));
    let mut conditional: Vec<char> = Vec::new();
    if live {
        push_str(&mut conditional, "Direct en cours");
        match store.current_show() {
            Some(cs) => match cs.elapsed_text(now_unix) {
                Some(e) => {
                    conditional.push(' ');
                    push_str(&mut conditional, e.as_str());
                    proof {
                        reveal_strlit("Direct en cours");
                        reveal_strlit("Direct en cours ");
                        assert("Direct en cours "@ =~= "Direct en cours"@.push(' '));
                    }
                },
                None => {},
            },
            None => {},
        }
    } else if health == StreamHealth::Failed && playing {
        push_str(&mut conditional, "Problème de lecture du flux audio.");
    }
    let (bar_title, bar_subtitle) = match store.now_playing() {
        Some(np) => {
            let line = np.metadata_line();
            let sub = if line.as_str().is_empty() {
                string_from_chars(chars_of("programmation en cours").as_slice())
            } else {
                line
            };
            (string_from_chars(chars_of(np.display_title()).as_slice()), sub)
        },
        None => (
            string_from_chars(chars_of("Chargement des métadonnées…").as_slice()),
            string_from_chars(chars_of("programmation en cours").as_slice()),
        ),
    };
    let indicator_text = if state == AntenneState::Connexion {
        player_text
    } else {
        state.label()
    };
    ChromeView {
        state,
        conditional: string_from_chars(conditional.as_slice()),
        bar_title,
        bar_subtitle,
        indicator_text,
        pulse: state == AntenneState::ALAntenne,
        play_icon: if playing {
            PAUSE_ICON
        } else {
            PLAY_ICON
        },
        play_label: if playing {
            "Mettre le direct en pause"
        } else {
            "Lancer le direct"
        },
    }
}

// ───────────────────────────── track-change notifications ─────────────────────────────

/// Remembers the last title seen, to notify only on a change.
pub struct TrackNotifier {
    pub last: Option<String>,
}

/// The body of a track-change notification.
pub open spec fn notification_body(title: Seq<char>, line: Seq<char>) -> Seq<char> {
    if line.len() == 0 {
        title
    } else {
        title + " — "@ + line
    }
}

/// The notification due when `title` is seen after `last`: one only on a change of
/// title, while listening, after a first title was seen, for a non-empty title.
pub open spec fn notification_for(
    last: Option<Seq<char>>,
    title: Seq<char>,
    line: Seq<char>,
    playing: bool,
) -> Option<Seq<char>> {
    if last == Some(title) {
        None
    } else if playing && last is Some && title.len() > 0 {
        Some(notification_body(title, line))
    } else {
        None
    }
}

impl TrackNotifier {
    /// The last title seen.
    pub open spec fn last_view(self) -> Option<Seq<char>> {
        match self.last {
            Some(t) => Some(t@),
            None => None,
        }
    }

    /// Nothing seen yet.
    pub fn new() -> (r: Self)
        ensures
            r.last_view() is None,
    {
        TrackNotifier { last: None }
    }

    /// Sees the current title and returns the notification body that is due, if any;
    /// the title is remembered.
    pub fn observe(&mut self, title: &str, line: &str, playing: bool) -> (r: Option<String>)
        ensures
            final(self).last_view() == Some(title@),
            r is Some <==> notification_for(old(self).last_view(), title@, line@, playing) is Some,
            r matches Some(b) ==> notification_for(old(self).last_view(), title@, line@, playing)
                == Some(b@),
    {
        let same = match &self.last {
            Some(t) => crate::text::str_eq(t.as_str(), title),
            None => false,
        };
        if same {
            return None;
        }
        let had_previous = self.last.is_some();
        self.last = Some(string_from_chars(chars_of(title).as_slice()));
        if playing && had_previous && !title.is_empty() {
            let mut body: Vec<char> = chars_of(title);
            if !line.is_empty() {
                push_str(&mut body, " — ");
                push_str(&mut body, line);
            }
            Some(string_from_chars(body.as_slice()))
        } else {
            None
        }
    }
}

/// The first title seen never notifies, the same title seen again never notifies, and
/// the notifier always remembers the title it saw last.
pub proof fn notifications_only_on_change(
    title: Seq<char>,
    line: Seq<char>,
    other_line: Seq<char>,
    playing: bool,
)
    ensures
        notification_for(None, title, line, playing) is None,
        notification_for(Some(title), title, other_line, playing) is None,
{
}

// ───────────────────────────── French dates ─────────────────────────────

/// French month names (index 0 = January).
pub open spec fn month_names() -> Seq<Seq<char>> {
    seq![
        "Janvier"@, "Février"@, "Mars"@, "Avril"@, "Mai"@, "Juin"@, "Juillet"@, "Août"@,
        "Septembre"@, "Octobre"@, "Novembre"@, "Décembre"@,
    ]
}

/// The same names in lower case.
pub open spec fn month_names_lower() -> Seq<Seq<char>> {
    seq![
        "janvier"@, "février"@, "mars"@, "avril"@, "mai"@, "juin"@, "juillet"@, "août"@,
        "septembre"@, "octobre"@, "novembre"@, "décembre"@,
    ]
}

/// French name of month `m` (1..12).
pub fn month_name(m: u32) -> (r: &'static str)
    requires
        1 <= m <= 12,
    ensures
        r@ == month_names()[m - 1],
{
    match m {
        1 => "Janvier",
        2 => "Février",
        3 => "Mars",
        4 => "Avril",
        5 => "Mai",
        6 => "Juin",
        7 => "Juillet",
        8 => "Août",
        9 => "Septembre",
        10 => "Octobre",
        11 => "Novembre",
        _ => "Décembre",
    }
}

/// Lower-case French name of month `m`; a month past December reads as December.
pub fn month_name_lower(m: u32) -> (r: &'static str)
    requires
        1 <= m,
    ensures
        m <= 12 ==> r@ == month_names_lower()[m - 1],
        m > 12 ==> r@ == month_names_lower()[11],
{
    match m {
        1 => "janvier",
        2 => "février",
        3 => "mars",
        4 => "avril",
        5 => "mai",
        6 => "juin",
        7 => "juillet",
        8 => "août",
        9 => "septembre",
        10 => "octobre",
        11 => "novembre",
        _ => "décembre",
    }
}

/// `{:02}`: at least two digits, zero-padded.
pub open spec fn pad2(n: nat) -> Seq<char> {
    if n < 10 {
        seq!['0'] + decimal(n)
    } else {
        decimal(n)
    }
}

fn pad2_exec(n: u32) -> (r: Vec<char>)
    ensures
        r@ == pad2(n as nat),
{
    let mut r: Vec<char> = Vec::new();
    if n < 10 {
        r.push('0');
    }
    let d = u64_decimal(n as u64);
    push_all(&mut r, d.as_slice());
    r
}

/// « 13 juin 2026 »: the date shown on the history search's date button.
pub open spec fn date_label_spec(day: u32, month: u32, year: u32) -> Seq<char> {
    decimal(day as nat) + " "@ + (if month <= 12 {
        month_names_lower()[month - 1]
    } else {
        month_names_lower()[11]
    }) + " "@ + decimal(year as nat)
}

/// « 13 juin 2026 » for a calendar date (`month` from 1).
pub fn date_label(day: u32, month: u32, year: u32) -> (r: String)
    requires
        1 <= month,
    ensures
        r@ == date_label_spec(day, month, year),
{
    let mut out = u64_decimal(day as u64);
    push_str(&mut out, " ");
    push_str(&mut out, month_name_lower(month));
    push_str(&mut out, " ");
    let y = u64_decimal(year as u64);
    push_all(&mut out, y.as_slice());
    string_from_chars(out.as_slice())
}

/// « 13 juin 2026 à 15:10 »: the slot named in the history search header.
pub fn slot_label(day: u32, month: u32, year: u32, hour: u32, minute: u32) -> (r: String)
    requires
        1 <= month,
    ensures
        r@ == date_label_spec(day, month, year) + " à "@ + pad2(hour as nat) + ":"@ + pad2(
            minute as nat,
        ),
{
    let d = date_label(day, month, year);
    let mut out = chars_of(d.as_str());
    push_str(&mut out, " à ");
    let h = pad2_exec(hour);
    push_all(&mut out, h.as_slice());
    push_str(&mut out, ":");
    let m = pad2_exec(minute);
    push_all(&mut out, m.as_slice());
    string_from_chars(out.as_slice())
}

// ───────────────────────────── news archive ─────────────────────────────

/// Whether `y` is the year of some item of `news`.
pub open spec fn has_year(news: Seq<NewsEntryView>, y: Seq<char>) -> bool {
    exists|i: int| 0 <= i < news.len() && year_of(#[trigger] news[i].sort_key) == Some(y)
}

/// The years to offer: each year of the news once, most recent first.
pub open spec fn is_year_list(r: Seq<Seq<char>>, news: Seq<NewsEntryView>) -> bool {
    &&& forall|i: int, j: int| 0 <= i < j < r.len() ==> seq_lt(#[trigger] r[j], #[trigger] r[i])
    &&& forall|y: Seq<char>| r.contains(y) <==> has_year(news, y)
}

/// Month of a news item, from its key's UTF-8 bytes.
pub open spec fn month_of_entry(e: NewsEntryView) -> Option<u32> {
    month_of(vstd::utf8::encode_utf8(e.sort_key))
}

/// Whether `m` is the month of some item of `news` in year `y`.
pub open spec fn has_month(news: Seq<NewsEntryView>, y: Seq<char>, m: u32) -> bool {
    exists|i: int|
        0 <= i < news.len() && year_of(#[trigger] news[i].sort_key) == Some(y) && month_of_entry(
            news[i],
        ) == Some(m)
}

/// The months to offer for a year: each month once, in calendar order.
pub open spec fn is_month_list(r: Seq<u32>, news: Seq<NewsEntryView>, y: Seq<char>) -> bool {
    &&& forall|i: int, j: int| 0 <= i < j < r.len() ==> #[trigger] r[i] < #[trigger] r[j]
    &&& forall|m: u32| r.contains(m) <==> has_month(news, y, m)
}

/// The items of a period, in their order.
pub open spec fn in_period(news: Seq<NewsEntryView>, y: Seq<char>, m: u32) -> Seq<NewsEntryView>
    decreases news.len(),
{
    if news.len() == 0 {
        seq![]
    } else {
        let e = news.last();
        if year_of(e.sort_key) == Some(y) && month_of_entry(e) == Some(m) {
            in_period(news.drop_last(), y, m).push(e)
        } else {
            in_period(news.drop_last(), y, m)
        }
    }
}

/// Inserts `y` in a strictly decreasing list of years, unless present.
fn insert_year(r: &mut Vec<String>, y: &str)
    requires
        forall|i: int, j: int|
            0 <= i < j < old(r).deep_view().len() ==> seq_lt(
                #[trigger] old(r).deep_view()[j],
                #[trigger] old(r).deep_view()[i],
            ),
    ensures
        forall|i: int, j: int|
            0 <= i < j < final(r).deep_view().len() ==> seq_lt(
                #[trigger] final(r).deep_view()[j],
                #[trigger] final(r).deep_view()[i],
            ),
        forall|x: Seq<char>| final(r).deep_view().contains(x) <==> (old(r).deep_view().contains(x) || x == y@),
{
    let ghost s = r.deep_view();
    let yc = chars_of(y);
    let mut p: usize = 0;
    while p < r.len()
        invariant
            p <= r@.len(),
            s == r.deep_view(),
            yc@ == y@,
            forall|k: int| 0 <= k < p ==> seq_lt(y@, #[trigger] s[k]),
            forall|i: int, j: int| 0 <= i < j < s.len() ==> seq_lt(#[trigger] s[j], #[trigger] s[i]),
        ensures
            p <= s.len(),
            p < s.len() ==> seq_lt(s[p as int], y@),
            forall|k: int| 0 <= k < p ==> seq_lt(y@, #[trigger] s[k]),
        decreases r@.len() - p,
    {
        let c = chars_of(r[p].as_str());
        assert(s[p as int] == r@[p as int]@);
        if chars_eq(c.as_slice(), yc.as_slice()) {
            assert(s.contains(y@));
            return;
        }
        if chars_lt(c.as_slice(), yc.as_slice()) {
            break;
        }
        proof {
            lemma_seq_lt_total(c@, y@);
        }
        p += 1;
    }
    let ghost p0 = p as int;
    proof {
        assert forall|k: int| p0 <= k < s.len() implies seq_lt(#[trigger] s[k], y@) by {
            if k > p0 {
                assert(seq_lt(s[k], s[p0]));
                lemma_seq_lt_transitive(s[k], s[p0], y@);
            }
        }
    }
    r.insert(p, string_from_chars(yc.as_slice()));
    proof {
        let t = r.deep_view();
        assert(t =~= s.subrange(0, p0).push(y@) + s.subrange(p0, s.len() as int));
        assert forall|i: int, j: int| 0 <= i < j < t.len() implies seq_lt(#[trigger] t[j], #[trigger] t[i]) by {
            if j < p0 {
                assert(t[i] == s[i] && t[j] == s[j]);
            } else if j == p0 {
                assert(t[j] == y@ && t[i] == s[i]);
            } else if i == p0 {
                assert(t[i] == y@ && t[j] == s[j - 1]);
            } else if i < p0 {
                assert(t[i] == s[i] && t[j] == s[j - 1]);
                assert(seq_lt(y@, s[i]));
                lemma_seq_lt_transitive(s[j - 1], y@, s[i]);
            } else {
                assert(t[i] == s[i - 1] && t[j] == s[j - 1]);
            }
        }
        assert forall|x: Seq<char>| t.contains(x) <==> (s.contains(x) || x == y@) by {
            if t.contains(x) {
                let k = choose|k: int| 0 <= k < t.len() && t[k] == x;
                if k < p0 {
                    assert(s[k] == x);
                } else if k > p0 {
                    assert(s[k - 1] == x);
                }
            }
            if s.contains(x) {
                let k = choose|k: int| 0 <= k < s.len() && s[k] == x;
                if k < p0 {
                    assert(t[k] == x);
                } else {
                    assert(t[k + 1] == x);
                }
            }
            if x == y@ {
                assert(t[p0] == x);
            }
        }
    }
}

/// The years of the news, each once, most recent first.
pub fn news_years(news: &Vec<NewsEntry>) -> (r: Vec<String>)
    ensures
        is_year_list(r.deep_view(), news.deep_view()),
{
    let ghost all = news.deep_view();
    let mut r: Vec<String> = Vec::new();
    let mut i: usize = 0;
    while i < news.len()
        invariant
            i <= news@.len(),
            all == news.deep_view(),
            forall|a: int, b: int| 0 <= a < b < r.deep_view().len() ==> seq_lt(
                #[trigger] r.deep_view()[b],
                #[trigger] r.deep_view()[a],
            ),
            forall|y: Seq<char>| r.deep_view().contains(y) <==> has_year(all.take(i as int), y),
        decreases news@.len() - i,
    {
        let ghost before = r.deep_view();
        assert(all[i as int] == news@[i as int]@);
        match news[i].year() {
            Some(y) => {
                insert_year(&mut r, y);
            },
            None => {},
        }
        proof {
            assert forall|y: Seq<char>| r.deep_view().contains(y) <==> has_year(all.take(i + 1), y) by {
                if has_year(all.take(i + 1), y) {
                    let k = choose|k: int| 0 <= k < all.take(i + 1).len() && year_of(#[trigger] all.take(i + 1)[k].sort_key) == Some(y);
                    if k < i {
                        assert(all.take(i as int)[k] == all.take(i + 1)[k]);
                    }
                }
                if has_year(all.take(i as int), y) {
                    let k = choose|k: int| 0 <= k < all.take(i as int).len() && year_of(#[trigger] all.take(i as int)[k].sort_key) == Some(y);
                    assert(all.take(i + 1)[k] == all.take(i as int)[k]);
                }
                if year_of(all[i as int].sort_key) == Some(y) {
                    assert(all.take(i + 1)[i as int] == all[i as int]);
                }
            }
        }
        i += 1;
    }
    proof {
        assert(all.take(i as int) == all);
    }
    r
}

/// Inserts `m` in a strictly increasing list, unless present.
fn insert_month(r: &mut Vec<u32>, m: u32)
    requires
        forall|i: int, j: int| 0 <= i < j < old(r)@.len() ==> #[trigger] old(r)@[i] < #[trigger] old(r)@[j],
    ensures
        forall|i: int, j: int| 0 <= i < j < final(r)@.len() ==> #[trigger] final(r)@[i] < #[trigger] final(r)@[j],
        forall|x: u32| final(r)@.contains(x) <==> (old(r)@.contains(x) || x == m),
{
    let ghost s = r@;
    let mut p: usize = 0;
    while p < r.len()
        invariant
            p <= r@.len(),
            s == r@,
            forall|k: int| 0 <= k < p ==> #[trigger] s[k] < m,
            forall|i: int, j: int| 0 <= i < j < s.len() ==> #[trigger] s[i] < #[trigger] s[j],
        ensures
            p <= s.len(),
            p < s.len() ==> m < s[p as int],
            forall|k: int| 0 <= k < p ==> #[trigger] s[k] < m,
        decreases r@.len() - p,
    {
        if r[p] == m {
            assert(s.contains(m));
            return;
        }
        if m < r[p] {
            break;
        }
        p += 1;
    }
    let ghost p0 = p as int;
    r.insert(p, m);
    proof {
        let t = r@;
        assert(t =~= s.subrange(0, p0).push(m) + s.subrange(p0, s.len() as int));
        assert forall|i: int, j: int| 0 <= i < j < t.len() implies #[trigger] t[i] < #[trigger] t[j] by {
            if j < p0 {
                assert(t[i] == s[i] && t[j] == s[j]);
            } else if j == p0 {
                assert(t[j] == m && t[i] == s[i]);
            } else if i == p0 {
                assert(t[i] == m && t[j] == s[j - 1]);
                if j - 1 > p0 {
                    assert(s[p0] < s[j - 1]);
                }
            } else if i < p0 {
                assert(t[i] == s[i] && t[j] == s[j - 1]);
            } else {
                assert(t[i] == s[i - 1] && t[j] == s[j - 1]);
            }
        }
        assert forall|x: u32| t.contains(x) <==> (s.contains(x) || x == m) by {
            if t.contains(x) {
                let k = choose|k: int| 0 <= k < t.len() && t[k] == x;
                if k < p0 {
                    assert(s[k] == x);
                } else if k > p0 {
                    assert(s[k - 1] == x);
                }
            }
            if s.contains(x) {
                let k = choose|k: int| 0 <= k < s.len() && s[k] == x;
                if k < p0 {
                    assert(t[k] == x);
                } else {
                    assert(t[k + 1] == x);
                }
            }
            if x == m {
                assert(t[p0] == x);
            }
        }
    }
}

/// The months of year `year` in the news, each once, in calendar order.
pub fn news_months(news: &Vec<NewsEntry>, year: &str) -> (r: Vec<u32>)
    ensures
        is_month_list(r@, news.deep_view(), year@),
{
    let ghost all = news.deep_view();
    let yc = chars_of(year);
    let mut r: Vec<u32> = Vec::new();
    let mut i: usize = 0;
    while i < news.len()
        invariant
            i <= news@.len(),
            all == news.deep_view(),
            yc@ == year@,
            forall|a: int, b: int| 0 <= a < b < r@.len() ==> #[trigger] r@[a] < #[trigger] r@[b],
            forall|m: u32| r@.contains(m) <==> has_month(all.take(i as int), year@, m),
        decreases news@.len() - i,
    {
        assert(all[i as int] == news@[i as int]@);
        let same_year = match news[i].year() {
            Some(y) => {
                let c = chars_of(y);
                chars_eq(c.as_slice(), yc.as_slice())
            },
            None => false,
        };
        if same_year {
            match news[i].month() {
                Some(m) => insert_month(&mut r, m),
                None => {},
            }
        }
        proof {
            assert forall|m: u32| r@.contains(m) <==> has_month(all.take(i + 1), year@, m) by {
                if has_month(all.take(i + 1), year@, m) {
                    let k = choose|k: int| 0 <= k < all.take(i + 1).len() && year_of(#[trigger] all.take(i + 1)[k].sort_key) == Some(year@) && month_of_entry(all.take(i + 1)[k]) == Some(m);
                    if k < i {
                        assert(all.take(i as int)[k] == all.take(i + 1)[k]);
                    }
                }
                if has_month(all.take(i as int), year@, m) {
                    let k = choose|k: int| 0 <= k < all.take(i as int).len() && year_of(#[trigger] all.take(i as int)[k].sort_key) == Some(year@) && month_of_entry(all.take(i as int)[k]) == Some(m);
                    assert(all.take(i + 1)[k] == all.take(i as int)[k]);
                }
                if year_of(all[i as int].sort_key) == Some(year@) && month_of_entry(all[i as int]) == Some(m) {
                    assert(all.take(i + 1)[i as int] == all[i as int]);
                }
            }
        }
        i += 1;
    }
    proof {
        assert(all.take(i as int) == all);
    }
    r
}

/// A copy of a news item.
fn copy_news(e: &NewsEntry) -> (r: NewsEntry)
    ensures
        r@ == e@,
{
    NewsEntry {
        stable_id: e.stable_id.clone(),
        title: e.title.clone(),
        sort_key: e.sort_key.clone(),
        date_label: e.date_label.clone(),
        lead: e.lead.clone(),
        body: e.body.clone(),
    }
}

/// The news of a given year and month, in their order.
pub fn news_in_period(news: &Vec<NewsEntry>, year: &str, month: u32) -> (r: Vec<NewsEntry>)
    ensures
        r.deep_view() == in_period(news.deep_view(), year@, month),
{
    let ghost all = news.deep_view();
    let yc = chars_of(year);
    let mut r: Vec<NewsEntry> = Vec::new();
    let mut i: usize = 0;
    proof {
        assert(r.deep_view() =~= in_period(all.take(0), year@, month));
    }
    while i < news.len()
        invariant
            i <= news@.len(),
            all == news.deep_view(),
            yc@ == year@,
            r.deep_view() == in_period(all.take(i as int), year@, month),
        decreases news@.len() - i,
    {
        assert(all[i as int] == news@[i as int]@);
        assert(all.take(i + 1).drop_last() == all.take(i as int));
        assert(all.take(i + 1).last() == all[i as int]);
        let same_year = match news[i].year() {
            Some(y) => {
                let c = chars_of(y);
                chars_eq(c.as_slice(), yc.as_slice())
            },
            None => false,
        };
        if same_year && news[i].month() == Some(month) {
            let ghost before = r.deep_view();
            r.push(copy_news(&news[i]));
            assert(r.deep_view() =~= before.push(all[i as int]));
        }
        i += 1;
    }
    proof {
        assert(all.take(i as int) == all);
    }
    r
}

// ───────────────────────────── small display rules ─────────────────────────────

/// The teaser of a news item on the home screen: its lead, else the start of its body.
pub fn teaser(n: &NewsEntry) -> (r: &str)
    ensures
        n.lead@.len() > 0 ==> r@ == n.lead@,
        n.lead@.len() == 0 ==> r@ == n.body@,
{
    if n.lead.as_str().is_empty() {
        n.body.as_str()
    } else {
        n.lead.as_str()
    }
}

/// The secondary line of a history row: the metadata, or a notice when there is none.
pub fn history_secondary(line: &str) -> (r: &str)
    ensures
        line@.len() > 0 ==> r@ == line@,
        line@.len() == 0 ==> r@ == "Diffusion sans métadonnées complètes"@,
{
    if line.is_empty() {
        "Diffusion sans métadonnées complètes"
    } else {
        line
    }
}

/// Slots shown under « À venir » on the home screen: up to three after the current one,
/// as the index range `[from, to)`.
pub fn upcoming_range(slot_count: usize, current: usize) -> (r: (usize, usize))
    requires
        current < slot_count,
    ensures
        r.0 == current + 1,
        r.1 == (if current + 4 < slot_count { current + 4 } else { slot_count as int }),
{
    let from = current + 1;
    let to = if slot_count - from > 3 {
        from + 3
    } else {
        slot_count
    };
    (from, to)
}

/// Badge of the current slot in the schedule: « direct » on a live show, else
/// « à l'antenne »; other slots have none.
pub fn current_slot_badge(is_current: bool, is_live: bool) -> (r: Option<&'static str>)
    ensures
        !is_current ==> r is None,
        is_current && is_live ==> (r matches Some(b) && b@ == "direct"@),
        is_current && !is_live ==> (r matches Some(b) && b@ == "à l'antenne"@),
{
    if !is_current {
        None
    } else if is_live {
        Some("direct")
    } else {
        Some("à l'antenne")
    }
}

/// The current slot shown for a day: only the day that is today has one.
pub fn slot_highlight(selected_is_today: bool, current: Option<usize>) -> (r: Option<usize>)
    ensures
        r == (if selected_is_today {
            current
        } else {
            None
        }),
{
    if selected_is_today {
        current
    } else {
        None
    }
}

/// Track metadata for the desktop's media controls: the displayed title, and the artist
/// and album when not empty.
pub fn track_metadata(np: &crate::services::now_playing::NowPlaying) -> (r: (String, Option<String>, Option<String>))
    ensures
        np.title@.len() == 0 ==> r.0@ == unavailable_title(),
        np.title@.len() > 0 ==> r.0@ == np.title@,
        np.artist@.len() == 0 ==> r.1 is None,
        np.artist@.len() > 0 ==> (r.1 matches Some(a) && a@ == np.artist@),
        np.album@.len() == 0 ==> r.2 is None,
        np.album@.len() > 0 ==> (r.2 matches Some(a) && a@ == np.album@),
{
    let title = string_from_chars(chars_of(np.display_title()).as_slice());
    let artist = if np.artist.as_str().is_empty() {
        None
    } else {
        Some(np.artist.clone())
    };
    let album = if np.album.as_str().is_empty() {
        None
    } else {
        Some(np.album.clone())
    };
    (title, artist, album)
}

/// The last path segment of an image URL (the name of its disk cache file), `None` when
/// the URL ends with `/`.
pub open spec fn cache_name_spec(url: Seq<char>) -> Option<Seq<char>> {
    let name = match crate::content::last_index_of(url, '/') {
        Some(i) => url.subrange(i + 1, url.len() as int),
        None => url,
    };
    if name.len() == 0 {
        None
    } else {
        Some(name)
    }
}

/// Name of the disk cache file of an image URL.
pub fn image_cache_name(url: &str) -> (r: Option<String>)
    ensures
        r is Some <==> cache_name_spec(url@) is Some,
        r matches Some(n) ==> cache_name_spec(url@) == Some(n@),
{
    let c = chars_of(url);
    let from = match crate::content::last_index_of_exec(c.as_slice(), '/') {
        Some(i) => {
            assert(i < c.len());
            i + 1
        },
        None => 0,
    };
    if from >= c.len() {
        return None;
    }
    let name = crate::text::sub_chars(c.as_slice(), from, c.len());
    proof {
        assert(c@.subrange(0, c@.len() as int) == c@);
    }
    Some(string_from_chars(name.as_slice()))
}

/// First characters of the first two words of `s` (words are separated by whitespace).
pub open spec fn word_initials(s: Seq<char>, prev_ws: bool, count: nat) -> Seq<char>
    decreases s.len(),
{
    if s.len() == 0 || count >= 2 {
        seq![]
    } else if !is_ws(s[0]) && prev_ws {
        seq![s[0]] + word_initials(s.drop_first(), false, count + 1)
    } else {
        word_initials(s.drop_first(), is_ws(s[0]), count)
    }
}

/// What `str::to_uppercase` returns for a string (Unicode full case mapping).
pub uninterp spec fn unicode_uppercase(s: Seq<char>) -> Seq<char>;

/// `str::to_uppercase` (Unicode upper-case mapping, which may lengthen the text, as
/// « ß » → « SS »). Trusted: the result is named by `unicode_uppercase` of the argument.
#[verifier::external_body]
fn to_uppercase(s: &[char]) -> (r: Vec<char>)
    ensures
        r@ == unicode_uppercase(s@),
{
    let text: String = s.iter().collect();
    text.to_uppercase().chars().collect()
}

/// Initials shown on an image placeholder: the first letters of the first two words, in
/// upper case.
pub fn initials(name: &str) -> (r: String)
    ensures
        r@ == unicode_uppercase(word_initials(name@, true, 0)),
{
    let c = chars_of(name);
    let mut out: Vec<char> = Vec::new();
    let mut prev_ws = true;
    let mut count: usize = 0;
    let mut i: usize = 0;
    proof {
        assert(c@.skip(0) == c@);
        assert(out@ + word_initials(c@, true, 0) == word_initials(c@, true, 0));
    }
    while i < c.len() && count < 2
        invariant
            i <= c@.len(),
            count <= 2,
            word_initials(c@, true, 0) == out@ + word_initials(c@.skip(i as int), prev_ws, count as nat),
        decreases c@.len() - i,
    {
        let ch = c[i];
        proof {
            assert(c@.skip(i as int)[0] == ch);
            assert(c@.skip(i as int).drop_first() == c@.skip(i + 1));
        }
        let ws = crate::text::char_is_ws(ch);
        if !ws && prev_ws {
            out.push(ch);
            count += 1;
            proof {
                assert(out@ == out@.drop_last().push(ch));
            }
        }
        prev_ws = ws;
        i += 1;
    }
    proof {
        assert(word_initials(c@.skip(i as int), prev_ws, count as nat) =~= Seq::<char>::empty());
        assert(out@ + Seq::<char>::empty() == out@);
        assert(c@ == name@);
    }
    let up = to_uppercase(out.as_slice());
    string_from_chars(up.as_slice())
}

} // verus!
