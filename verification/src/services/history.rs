//! `history/nowplaying.csv`: the broadcast history. RFC 4180 tokenizer (quotes, `""`,
//! commas and line breaks inside quoted fields), header detection by date, rejection of
//! incomplete rows, newest-first ordering, cap, and closest-slot search.
use vstd::prelude::*;

use crate::clock::{
    naive_datetime, paris_instant, paris_wall_clock, parse_naive, parse_rfc3339, resolve_paris,
    rfc3339_instant, same_date, wall_ok, LocalDateTime, ParisTime, UtcTime,
};
use crate::sorting::{lemma_stable_sort_by_key, stable_sort_by_key};
use crate::text::{
    chars_of, decimal, find_chars, first_occurrence, join, join_chars, keep_non_empty,
    non_empty_parts, push_all, string_from_chars, sub_chars, trim, trim_str,
    u64_decimal,
};

verus! {

/// One broadcast of the history.
#[derive(Debug, Clone, PartialEq, Eq)]
pub struct HistoryEntry {
    pub timestamp_iso: String,
    pub artist: String,
    pub title: String,
    pub album: String,
    pub year: String,
    /// Parsed instant (UTC), for ordering.
    pub at: UtcTime,
    /// The Paris wall clock of `at`, for display and slot search.
    pub at_paris: LocalDateTime,
}

/// Mathematical model of a history entry.
pub struct HistoryRow {
    pub timestamp_iso: Seq<char>,
    pub artist: Seq<char>,
    pub title: Seq<char>,
    pub album: Seq<char>,
    pub year: Seq<char>,
    pub at: UtcTime,
    pub at_paris: LocalDateTime,
}

impl View for HistoryEntry {
    type V = HistoryRow;

    open spec fn view(&self) -> HistoryRow {
        HistoryRow {
            timestamp_iso: self.timestamp_iso@,
            artist: self.artist@,
            title: self.title@,
            album: self.album@,
            year: self.year@,
            at: self.at,
            at_paris: self.at_paris,
        }
    }
}

impl DeepView for HistoryEntry {
    type V = HistoryRow;

    open spec fn deep_view(&self) -> HistoryRow {
        self@
    }
}

// ───────────────────────────── RFC 4180 tokenizer ─────────────────────────────

/// Tokenizer state: finished rows, the record being read, the field being read,
/// whether we are inside quotes, and whether the current line holds anything.
pub struct TokState {
    pub rows: Seq<Seq<Seq<char>>>,
    pub record: Seq<Seq<char>>,
    pub field: Seq<char>,
    pub in_quotes: bool,
    pub any: bool,
}

pub open spec fn tok_init() -> TokState {
    TokState { rows: seq![], record: seq![], field: seq![], in_quotes: false, any: false }
}

/// End of a line: the field closes the record, which becomes a row unless the line
/// was entirely empty.
pub open spec fn tok_flush(st: TokState) -> TokState {
    let record = st.record.push(st.field);
    TokState {
        rows: if st.any {
            st.rows.push(record)
        } else {
            st.rows
        },
        record: seq![],
        field: seq![],
        in_quotes: st.in_quotes,
        any: false,
    }
}

/// Rows produced by reading `input` from position `i` in state `st`.
pub open spec fn tok_from(input: Seq<char>, i: int, st: TokState) -> Seq<Seq<Seq<char>>>
    decreases input.len() - i,
{
    if i < 0 || i >= input.len() {
        tok_flush(st).rows
    } else {
        let c = input[i];
        if st.in_quotes {
            if c == '"' {
                if i + 1 < input.len() && input[i + 1] == '"' {
                    tok_from(input, i + 2, TokState { field: st.field.push('"'), ..st })
                } else {
                    tok_from(input, i + 1, TokState { in_quotes: false, ..st })
                }
            } else {
                tok_from(input, i + 1, TokState { field: st.field.push(c), ..st })
            }
        } else if c == '"' {
            tok_from(input, i + 1, TokState { in_quotes: true, any: true, ..st })
        } else if c == ',' {
            tok_from(
                input,
                i + 1,
                TokState { record: st.record.push(st.field), field: seq![], any: true, ..st },
            )
        } else if c == '\r' || c == '\n' {
            if c == '\r' && i + 1 < input.len() && input[i + 1] == '\n' {
                tok_from(input, i + 2, tok_flush(st))
            } else {
                tok_from(input, i + 1, tok_flush(st))
            }
        } else {
            tok_from(input, i + 1, TokState { field: st.field.push(c), any: true, ..st })
        }
    }
}

/// The rows of an RFC 4180 text: `"` opens and closes a quoted section, `""` inside quotes
/// is a literal quote, `,` separates fields and `\n`, `\r` or `\r\n` end a line outside
/// quotes; an entirely empty line yields no row and a last line without a line break is
/// still a row.
pub open spec fn tokenize_spec(input: Seq<char>) -> Seq<Seq<Seq<char>>> {
    tok_from(input, 0, tok_init())
}

/// A state at the start of a line, outside quotes, with nothing read on the line yet.
pub open spec fn at_line_start(st: TokState) -> bool {
    !st.in_quotes && !st.any && st.record.len() == 0 && st.field.len() == 0
}

/// An entirely empty line yields no row: at the start of a line, a line break (`\n`,
/// `\r` or `\r\n`) changes nothing.
pub proof fn empty_line_is_ignored(input: Seq<char>, i: int, st: TokState)
    requires
        at_line_start(st),
        0 <= i < input.len(),
        input[i] == '\n' || input[i] == '\r',
    ensures
        tok_from(input, i, st) == tok_from(
            input,
            if input[i] == '\r' && i + 1 < input.len() && input[i + 1] == '\n' {
                i + 2
            } else {
                i + 1
            },
            st,
        ),
{
    assert(tok_flush(st) =~= st) by {
        assert(st.record =~= Seq::<Seq<char>>::empty());
        assert(st.field =~= Seq::<char>::empty());
    }
}

proof fn lemma_tok_shift(p: Seq<char>, s: Seq<char>, i: int, st: TokState)
    requires
        0 <= i <= s.len(),
    ensures
        tok_from(p + s, i + p.len(), st) == tok_from(s, i, st),
    decreases s.len() - i,
{
    let x = p + s;
    let j = i + p.len();
    if i < s.len() {
        assert(x[j] == s[i]);
        if i + 1 < s.len() {
            assert(x[j + 1] == s[i + 1]);
        }
        let c = s[i];
        if st.in_quotes {
            if c == '"' {
                if i + 1 < s.len() && s[i + 1] == '"' {
                    lemma_tok_shift(p, s, i + 2, TokState { field: st.field.push('"'), ..st });
                } else {
                    lemma_tok_shift(p, s, i + 1, TokState { in_quotes: false, ..st });
                }
            } else {
                lemma_tok_shift(p, s, i + 1, TokState { field: st.field.push(c), ..st });
            }
        } else if c == '"' {
            lemma_tok_shift(p, s, i + 1, TokState { in_quotes: true, any: true, ..st });
        } else if c == ',' {
            lemma_tok_shift(
                p,
                s,
                i + 1,
                TokState { record: st.record.push(st.field), field: seq![], any: true, ..st },
            );
        } else if c == '\r' || c == '\n' {
            if c == '\r' && i + 1 < s.len() && s[i + 1] == '\n' {
                lemma_tok_shift(p, s, i + 2, tok_flush(st));
            } else {
                lemma_tok_shift(p, s, i + 1, tok_flush(st));
            }
        } else {
            lemma_tok_shift(p, s, i + 1, TokState { field: st.field.push(c), any: true, ..st });
        }
    }
}

/// Empty lines at the start of the file produce no row.
pub proof fn leading_empty_lines_are_ignored(s: Seq<char>)
    ensures
        tokenize_spec(seq!['\n'] + s) == tokenize_spec(s),
        tokenize_spec(seq!['\r', '\n'] + s) == tokenize_spec(s),
{
    assert(at_line_start(tok_init()));
    empty_line_is_ignored(seq!['\n'] + s, 0, tok_init());
    lemma_tok_shift(seq!['\n'], s, 0, tok_init());
    empty_line_is_ignored(seq!['\r', '\n'] + s, 0, tok_init());
    lemma_tok_shift(seq!['\r', '\n'], s, 0, tok_init());
}

fn flush(
    rows: &mut Vec<Vec<String>>,
    record: &mut Vec<String>,
    field: &mut Vec<char>,
    any: &mut bool,
)
    ensures
        ({
            let before = TokState {
                rows: old(rows).deep_view(),
                record: old(record).deep_view(),
                field: old(field)@,
                in_quotes: false,
                any: *old(any),
            };
            let after = tok_flush(before);
            &&& final(rows).deep_view() == after.rows
            &&& final(record).deep_view() == after.record
            &&& final(field)@ == after.field
            &&& *final(any) == after.any
        }),
{
    let f = string_from_chars(field.as_slice());
    record.push(f);
    let ghost pushed = old(record).deep_view().push(old(field)@);
    assert(record.deep_view() =~= pushed);
    if *any {
        let mut done: Vec<String> = Vec::new();
        std::mem::swap(&mut done, record);
        assert(done.deep_view() == pushed);
        rows.push(done);
        assert(rows.deep_view() =~= old(rows).deep_view().push(pushed));
    } else {
        record.clear();
    }
    assert(record.deep_view() =~= Seq::<Seq<char>>::empty());
    field.clear();
    *any = false;
}

/// RFC 4180 tokenizer: the rows of fields of `input`.
pub fn tokenize(input: &[char]) -> (rows: Vec<Vec<String>>)
    ensures
        rows.deep_view() == tokenize_spec(input@),
{
    let mut rows: Vec<Vec<String>> = Vec::new();
    let mut record: Vec<String> = Vec::new();
    let mut field: Vec<char> = Vec::new();
    let mut in_quotes = false;
    let mut any = false;
    let n = input.len();
    let mut i: usize = 0;
    assert(rows.deep_view() =~= Seq::<Seq<Seq<char>>>::empty());
    assert(record.deep_view() =~= Seq::<Seq<char>>::empty());
    while i < n
        invariant
            n == input@.len(),
            i <= n,
            tokenize_spec(input@) == tok_from(
                input@,
                i as int,
                TokState {
                    rows: rows.deep_view(),
                    record: record.deep_view(),
                    field: field@,
                    in_quotes,
                    any,
                },
            ),
        decreases n - i,
    {
        let c = input[i];
        if in_quotes {
            if c == '"' {
                if i + 1 < n && input[i + 1] == '"' {
                    field.push('"');
                    i += 2;
                } else {
                    in_quotes = false;
                    i += 1;
                }
            } else {
                field.push(c);
                i += 1;
            }
        } else if c == '"' {
            in_quotes = true;
            any = true;
            i += 1;
        } else if c == ',' {
            let f = string_from_chars(field.as_slice());
            let ghost old_record = record.deep_view();
            record.push(f);
            assert(record.deep_view() =~= old_record.push(field@));
            field = Vec::new();
            any = true;
            i += 1;
        } else if c == '\r' || c == '\n' {
            flush(&mut rows, &mut record, &mut field, &mut any);
            if c == '\r' && i + 1 < n && input[i + 1] == '\n' {
                i += 2;
            } else {
                i += 1;
            }
        } else {
            field.push(c);
            any = true;
            i += 1;
        }
    }
    flush(&mut rows, &mut record, &mut field, &mut any);
    rows
}


// ───────────────────────────── dates ─────────────────────────────

/// The `strftime` formats tried after RFC 3339, read in Paris time, in order.
pub open spec fn local_format(k: int) -> Seq<char> {
    if k == 0 {
        "%Y-%m-%d %H:%M:%S"@
    } else if k == 1 {
        "%Y-%m-%d %H:%M"@
    } else if k == 2 {
        "%d/%m/%Y %H:%M:%S"@
    } else {
        "%d/%m/%Y %H:%M"@
    }
}

fn local_format_exec(k: usize) -> (r: &'static str)
    requires
        k < 4,
    ensures
        r@ == local_format(k as int),
{
    if k == 0 {
        "%Y-%m-%d %H:%M:%S"
    } else if k == 1 {
        "%Y-%m-%d %H:%M"
    } else if k == 2 {
        "%d/%m/%Y %H:%M:%S"
    } else {
        "%d/%m/%Y %H:%M"
    }
}

/// First local format, from the `k`-th on, that reads `s` as a single Paris instant.
pub open spec fn local_formats_from(s: Seq<char>, k: int) -> Option<UtcTime>
    decreases 4 - k,
{
    if k < 0 || k >= 4 {
        None
    } else {
        match naive_datetime(s, local_format(k)) {
            Some(n) => match paris_instant(n) {
                Some(t) => Some(t),
                None => local_formats_from(s, k + 1),
            },
            None => local_formats_from(s, k + 1),
        }
    }
}

/// `parseDate`: the trimmed text read as RFC 3339 (with or without fractions and with
/// any offset), else by the local formats in Paris time; `None` for an empty text.
pub open spec fn parse_date_spec(raw: Seq<char>) -> Option<UtcTime> {
    let s = trim(raw);
    if s.len() == 0 {
        None
    } else if rfc3339_instant(s) is Some {
        rfc3339_instant(s)
    } else {
        local_formats_from(s, 0)
    }
}

fn parse_date_paris(raw: &str) -> (r: Option<ParisTime>)
    ensures
        r matches Some(p) ==> Some(p.instant) == parse_date_spec(raw@) && p.wall
            == paris_wall_clock(p.instant) && wall_ok(p.wall),
        r is None ==> parse_date_spec(raw@) is None,
{
    let t = trim_str(raw);
    if t.len() == 0 {
        return None;
    }
    let s = string_from_chars(t.as_slice());
    if let Some(p) = parse_rfc3339(s.as_str()) {
        return Some(p);
    }
    let mut k: usize = 0;
    while k < 4
        invariant
            k <= 4,
            s@ == trim(raw@),
            s@.len() > 0,
            rfc3339_instant(s@) is None,
            local_formats_from(s@, 0) == local_formats_from(s@, k as int),
        decreases 4 - k,
    {
        if let Some(n) = parse_naive(s.as_str(), local_format_exec(k)) {
            if let Some(p) = resolve_paris(n) {
                return Some(p);
            }
        }
        k += 1;
    }
    None
}

/// `parseDate`: ISO 8601 / RFC 3339 first (with or without fractions), then the local
/// formats interpreted in Europe/Paris.
pub fn parse_date(raw: &str) -> (r: Option<UtcTime>)
    ensures
        r == parse_date_spec(raw@),
{
    match parse_date_paris(raw) {
        Some(p) => Some(p.instant),
        None => None,
    }
}

// ───────────────────────────── rows to entries ─────────────────────────────

pub open spec fn cell(row: Seq<Seq<char>>, k: int) -> Seq<char> {
    if 0 <= k < row.len() {
        row[k]
    } else {
        seq![]
    }
}

/// An entry from a row `ts_iso, ts_unix, artist, title[, album[, year]]`: rejected with
/// fewer than 4 columns, an empty timestamp, both title and artist blank, or an
/// unreadable date.
pub open spec fn row_entry_spec(row: Seq<Seq<char>>) -> Option<HistoryRow> {
    if row.len() < 4 {
        None
    } else {
        let ts = trim(row[0]);
        if ts.len() == 0 || (trim(row[3]).len() == 0 && trim(row[2]).len() == 0) {
            None
        } else {
            match parse_date_spec(ts) {
                None => None,
                Some(at) => Some(
                    HistoryRow {
                        timestamp_iso: ts,
                        artist: row[2],
                        title: row[3],
                        album: cell(row, 4),
                        year: cell(row, 5),
                        at,
                        at_paris: paris_wall_clock(at),
                    },
                ),
            }
        }
    }
}

/// Entries of the rows, in row order.
pub open spec fn entries_of(rows: Seq<Seq<Seq<char>>>) -> Seq<HistoryRow>
    decreases rows.len(),
{
    if rows.len() == 0 {
        seq![]
    } else {
        match row_entry_spec(rows.last()) {
            Some(e) => entries_of(rows.drop_last()).push(e),
            None => entries_of(rows.drop_last()),
        }
    }
}

fn cell_string(row: &Vec<String>, k: usize) -> (r: String)
    ensures
        r@ == cell(row.deep_view(), k as int),
{
    if k < row.len() {
        row[k].clone()
    } else {
        String::new()
    }
}

fn row_to_entry(row: &Vec<String>) -> (r: Option<HistoryEntry>)
    ensures
        r matches Some(e) ==> row_entry_spec(row.deep_view()) == Some(e@),
        r is None ==> row_entry_spec(row.deep_view()) is None,
{
    if row.len() < 4 {
        return None;
    }
    let ts = trim_str(row[0].as_str());
    let title_t = trim_str(row[3].as_str());
    let artist_t = trim_str(row[2].as_str());
    if ts.len() == 0 || (title_t.len() == 0 && artist_t.len() == 0) {
        return None;
    }
    let timestamp_iso = string_from_chars(ts.as_slice());
    match parse_date_paris(timestamp_iso.as_str()) {
        None => {
            proof {
                crate::text::lemma_trim_idempotent(row.deep_view()[0]);
            }
            None
        },
        Some(p) => {
            proof {
                crate::text::lemma_trim_idempotent(row.deep_view()[0]);
            }
            Some(
                HistoryEntry {
                    timestamp_iso,
                    artist: row[2].clone(),
                    title: row[3].clone(),
                    album: cell_string(row, 4),
                    year: cell_string(row, 5),
                    at: p.instant,
                    at_paris: p.wall,
                },
            )
        },
    }
}

// ───────────────────────────── ordering ─────────────────────────────

/// Newest first: the key orders later instants before earlier ones.
pub open spec fn newest_first_key(e: HistoryRow) -> (int, int, int) {
    (-(e.at.secs as int), -(e.at.nanos as int), 0)
}

pub fn newest_first_key_exec(e: &HistoryEntry) -> (k: (i128, i128, i128))
    ensures
        k.0 == newest_first_key(e@).0,
        k.1 == newest_first_key(e@).1,
        k.2 == newest_first_key(e@).2,
{
    (-(e.at.secs as i128), -(e.at.nanos as i128), 0)
}

/// `slice::sort_by_key` with the newest-first key (a stable sort).
/// Trusted: std documents the sort as stable and ordered by the key, which determines the
/// result: the stable sort of the entries by `newest_first_key`.
#[verifier::external_body]
fn sort_newest_first(v: &mut Vec<HistoryEntry>)
    ensures
        final(v).deep_view() == stable_sort_by_key(old(v).deep_view(), |e: HistoryRow| newest_first_key(e)),
{
    v.sort_by_key(|e| newest_first_key_exec(e))
}

/// Entries of the CSV after header removal: the first line is a header when its first
/// cell is not a date.
pub open spec fn data_rows(rows: Seq<Seq<Seq<char>>>) -> Seq<Seq<Seq<char>>> {
    if rows.len() > 0 && parse_date_spec(cell(rows[0], 0)) is None {
        rows.drop_first()
    } else {
        rows
    }
}

/// What `parse_csv` returns: valid entries, newest first, capped to `limit`.
pub open spec fn parse_csv_spec(data: Seq<char>, limit: Option<usize>) -> Seq<HistoryRow> {
    let sorted = stable_sort_by_key(
        entries_of(data_rows(tokenize_spec(data))),
        |e: HistoryRow| newest_first_key(e),
    );
    match limit {
        Some(max) => if max < sorted.len() {
            sorted.take(max as int)
        } else {
            sorted
        },
        None => sorted,
    }
}

/// Parses the CSV and returns its entries newest first; `limit` caps the number of
/// (most recent) entries kept, `None` keeps everything (archive search).
pub fn parse_csv(data: &str, limit: Option<usize>) -> (r: Vec<HistoryEntry>)
    ensures
        r.deep_view() == parse_csv_spec(data@, limit),
{
    let chars = chars_of(data);
    let rows = tokenize(chars.as_slice());
    let ghost all_rows = rows.deep_view();
    let mut start: usize = 0;
    if rows.len() > 0 {
        let first_cell = cell_string(&rows[0], 0);
        assert(first_cell@ == cell(all_rows[0], 0));
        if parse_date(first_cell.as_str()).is_none() {
            start = 1;
        }
    }
    let ghost kept = data_rows(all_rows);
    assert(kept == all_rows.subrange(start as int, all_rows.len() as int));
    let mut entries: Vec<HistoryEntry> = Vec::new();
    let mut i = start;
    assert(kept.take(0) =~= Seq::<Seq<Seq<char>>>::empty());
    assert(entries.deep_view() =~= entries_of(kept.take(0)));
    while i < rows.len()
        invariant
            start <= i <= rows.len(),
            all_rows == rows.deep_view(),
            kept == all_rows.subrange(start as int, all_rows.len() as int),
            entries.deep_view() == entries_of(kept.take(i - start)),
        decreases rows.len() - i,
    {
        let ghost j = i - start;
        assert(kept.take(j + 1).drop_last() == kept.take(j));
        assert(kept.take(j + 1).last() == rows[i as int].deep_view());
        match row_to_entry(&rows[i]) {
            Some(e) => {
                let ghost before = entries.deep_view();
                entries.push(e);
                assert(entries.deep_view() =~= before.push(e@));
            },
            None => {},
        }
        i += 1;
    }
    assert(kept.take(rows.len() - start) == kept);
    sort_newest_first(&mut entries);
    match limit {
        Some(max) => {
            entries.truncate(max);
        },
        None => {},
    }
    entries
}


/// Number of history rows kept in list mode.
pub const HISTORY_MAX_ROWS: usize = 240;

/// List variant (cap of 240).
pub fn parse_recent(data: &str) -> (r: Vec<HistoryEntry>)
    ensures
        r.deep_view() == parse_csv_spec(data@, Some(240usize)),
{
    parse_csv(data, Some(HISTORY_MAX_ROWS))
}

/// The text of a tail of the CSV: when it was cut at an arbitrary byte (a partial
/// download), its first line is incomplete and is dropped.
pub open spec fn tail_text_spec(text: Seq<char>, partial: bool) -> Seq<char> {
    if partial {
        match first_occurrence(text, seq!['\n']) {
            Some(i) => text.subrange(i + 1, text.len() as int),
            None => text,
        }
    } else {
        text
    }
}

/// The recent history (capped at 240) of a tail of the CSV; `partial` tells that the
/// tail starts in the middle of a line.
pub fn parse_tail(text: &str, partial: bool) -> (r: Vec<HistoryEntry>)
    ensures
        r.deep_view() == parse_csv_spec(tail_text_spec(text@, partial), Some(240usize)),
{
    if !partial {
        return parse_recent(text);
    }
    let c = chars_of(text);
    let mut nl: Vec<char> = Vec::new();
    nl.push('\n');
    assert(nl@ =~= seq!['\n']);
    match find_chars(c.as_slice(), nl.as_slice()) {
        Some(i) => {
            assert(i + 1 <= c@.len());
            assert(c@.len() == c.len());
            let rest = sub_chars(c.as_slice(), i + 1, c.len());
            let s = string_from_chars(rest.as_slice());
            assert(c@ == text@);
            parse_recent(s.as_str())
        },
        None => {
            assert(c@ == text@);
            parse_recent(text)
        },
    }
}

// ───────────────────────────── closest-slot search ─────────────────────────────

/// Absolute gap, in minutes, between an entry's Paris time of day and the target minute.
pub open spec fn gap_minutes(e: HistoryRow, target_minute: int) -> int {
    let m = e.at_paris.hour * 60 + e.at_paris.minute;
    if m >= target_minute {
        m - target_minute
    } else {
        target_minute - m
    }
}

/// Closest first; at equal gaps, the most recent first.
pub open spec fn closest_key(e: HistoryRow, target_minute: int) -> (int, int, int) {
    (gap_minutes(e, target_minute), -(e.at.secs as int), -(e.at.nanos as int))
}

pub fn closest_key_exec(e: &HistoryEntry, target_minute: i64) -> (k: (i128, i128, i128))
    requires
        0 <= target_minute < 1440,
    ensures
        k.0 == closest_key(e@, target_minute as int).0,
        k.1 == closest_key(e@, target_minute as int).1,
        k.2 == closest_key(e@, target_minute as int).2,
{
    let m: i128 = e.at_paris.hour as i128 * 60 + e.at_paris.minute as i128;
    let t: i128 = target_minute as i128;
    let gap: i128 = if m >= t {
        m - t
    } else {
        t - m
    };
    (gap, -(e.at.secs as i128), -(e.at.nanos as i128))
}

/// `slice::sort_by_key` with the closest-first key (a stable sort).
/// Trusted: std documents the sort as stable and ordered by the key, which determines the
/// result: the stable sort of the entries by `closest_key`.
#[verifier::external_body]
fn sort_closest_first(v: &mut Vec<HistoryEntry>, target_minute: i64)
    requires
        0 <= target_minute < 1440,
    ensures
        final(v).deep_view() == stable_sort_by_key(
            old(v).deep_view(),
            |e: HistoryRow| closest_key(e, target_minute as int),
        ),
{
    v.sort_by_key(|e| closest_key_exec(e, target_minute))
}

/// Entries broadcast on the target's Paris day, in their input order.
pub open spec fn same_day(entries: Seq<HistoryRow>, target: LocalDateTime) -> Seq<HistoryRow>
    decreases entries.len(),
{
    if entries.len() == 0 {
        seq![]
    } else if same_date(entries.last().at_paris, target) {
        same_day(entries.drop_last(), target).push(entries.last())
    } else {
        same_day(entries.drop_last(), target)
    }
}

/// What `search_closest` returns: the entries of the target's Paris day, closest in
/// minutes to its time of day first, most recent first at equal gaps, at most `limit`.
pub open spec fn search_closest_spec(entries: Seq<HistoryRow>, target: ParisTime, limit: usize) -> Seq<
    HistoryRow,
> {
    let sorted = stable_sort_by_key(
        same_day(entries, target.wall),
        |e: HistoryRow| closest_key(e, target.wall.hour * 60 + target.wall.minute),
    );
    if limit < sorted.len() {
        sorted.take(limit as int)
    } else {
        sorted
    }
}

/// `a` is at least as recent as `b`.
pub open spec fn not_older(a: HistoryRow, b: HistoryRow) -> bool {
    b.at.secs < a.at.secs || (b.at.secs == a.at.secs && b.at.nanos <= a.at.nanos)
}

/// The history comes newest first. Capped, it holds at most `limit` entries and they are
/// the first (most recent) ones of the uncapped history; uncapped, it holds every dated
/// line of the file once.
pub proof fn history_is_newest_first(data: Seq<char>, limit: Option<usize>)
    ensures
        forall|i: int, j: int|
            0 <= i < j < parse_csv_spec(data, limit).len() ==> not_older(
                #[trigger] parse_csv_spec(data, limit)[i],
                #[trigger] parse_csv_spec(data, limit)[j],
            ),
        limit matches Some(m) ==> parse_csv_spec(data, limit).len() <= m,
        parse_csv_spec(data, limit).len() <= parse_csv_spec(data, None).len(),
        forall|i: int|
            0 <= i < parse_csv_spec(data, limit).len() ==> #[trigger] parse_csv_spec(data, limit)[i]
                == parse_csv_spec(data, None)[i],
        parse_csv_spec(data, None).to_multiset() == entries_of(data_rows(tokenize_spec(data))).to_multiset(),
{
    let key = |e: HistoryRow| newest_first_key(e);
    let all = entries_of(data_rows(tokenize_spec(data)));
    lemma_stable_sort_by_key(all, key);
    let sorted = stable_sort_by_key(all, key);
    let r = parse_csv_spec(data, limit);
    assert forall|i: int, j: int| 0 <= i < j < r.len() implies not_older(#[trigger] r[i], #[trigger] r[j]) by {
        assert(r[i] == sorted[i] && r[j] == sorted[j]);
        assert(key(sorted[i]) == newest_first_key(sorted[i]));
        assert(key(sorted[j]) == newest_first_key(sorted[j]));
    }
}

/// A CSV row that must give an entry: at least 4 columns, a non-empty readable
/// timestamp, and a title or an artist that is not blank.
pub open spec fn accepted_row(r: Seq<Seq<char>>) -> bool {
    &&& r.len() >= 4
    &&& trim(r[0]).len() > 0
    &&& parse_date_spec(trim(r[0])) is Some
    &&& (trim(r[3]).len() > 0 || trim(r[2]).len() > 0)
}

/// `e` is the entry of row `r`: its timestamp, artist and title, read at its date.
pub open spec fn entry_of_row(e: HistoryRow, r: Seq<Seq<char>>) -> bool {
    &&& r.len() >= 4
    &&& e.timestamp_iso == trim(r[0])
    &&& e.artist == r[2]
    &&& e.title == r[3]
    &&& e.album == (if r.len() > 4 { r[4] } else { seq![] })
    &&& e.year == (if r.len() > 5 { r[5] } else { seq![] })
    &&& parse_date_spec(trim(r[0])) == Some(e.at)
    &&& e.at_paris == paris_wall_clock(e.at)
}

/// Some entry of `es` is the entry of row `r`.
pub open spec fn has_entry_for(es: Seq<HistoryRow>, r: Seq<Seq<char>>) -> bool {
    exists|i: int| 0 <= i < es.len() && entry_of_row(#[trigger] es[i], r)
}

/// `e` is the entry of some accepted row of `rows`.
pub open spec fn from_accepted_row(e: HistoryRow, rows: Seq<Seq<Seq<char>>>) -> bool {
    exists|j: int| 0 <= j < rows.len() && accepted_row(#[trigger] rows[j]) && entry_of_row(e, rows[j])
}

proof fn lemma_entries_of_rows(rows: Seq<Seq<Seq<char>>>)
    ensures
        forall|j: int|
            0 <= j < rows.len() && accepted_row(#[trigger] rows[j]) ==> has_entry_for(entries_of(rows), rows[j]),
        forall|i: int|
            0 <= i < entries_of(rows).len() ==> from_accepted_row(#[trigger] entries_of(rows)[i], rows),
    decreases rows.len(),
{
    if rows.len() > 0 {
        let d = rows.drop_last();
        lemma_entries_of_rows(d);
        let prev = entries_of(d);
        let all = entries_of(rows);
        let last = rows[rows.len() - 1];
        assert(prev.len() <= all.len());
        assert(forall|i: int| 0 <= i < prev.len() ==> all[i] == prev[i]);
        assert forall|j: int| 0 <= j < rows.len() && accepted_row(#[trigger] rows[j]) implies has_entry_for(all, rows[j]) by {
            if j < d.len() {
                assert(rows[j] == d[j]);
                assert(has_entry_for(prev, d[j]));
                let i = choose|i: int| 0 <= i < prev.len() && entry_of_row(#[trigger] prev[i], d[j]);
                assert(all[i] == prev[i]);
                assert(entry_of_row(all[i], rows[j]));
            } else {
                assert(rows[j] == last);
                assert(row_entry_spec(last) is Some);
                assert(entry_of_row(all[prev.len() as int], last));
            }
        }
        assert forall|i: int| 0 <= i < all.len() implies from_accepted_row(#[trigger] all[i], rows) by {
            if i < prev.len() {
                assert(from_accepted_row(prev[i], d));
                let j = choose|j: int| 0 <= j < d.len() && accepted_row(#[trigger] d[j]) && entry_of_row(prev[i], d[j]);
                assert(rows[j] == d[j]);
                assert(all[i] == prev[i]);
                assert(accepted_row(rows[j]) && entry_of_row(all[i], rows[j]));
            } else {
                assert(rows[rows.len() - 1] == last);
                assert(accepted_row(last) && entry_of_row(all[i], last));
            }
        }
    } else {
        assert(entries_of(rows).len() == 0);
    }
}

/// Rows are rejected only for the documented reasons: every data row with at least 4
/// columns, a readable non-empty timestamp and a non-blank title OR a non-blank artist
/// gives an entry of the uncapped history with its timestamp, artist, title and date (a
/// row is not dropped because one of title and artist alone is blank); and every entry
/// of the history comes from such a row.
pub proof fn history_rows_kept_unless_rejected(data: Seq<char>)
    ensures
        forall|j: int|
            0 <= j < data_rows(tokenize_spec(data)).len() && accepted_row(
                #[trigger] data_rows(tokenize_spec(data))[j],
            ) ==> has_entry_for(parse_csv_spec(data, None), data_rows(tokenize_spec(data))[j]),
        forall|i: int|
            0 <= i < parse_csv_spec(data, None).len() ==> from_accepted_row(
                #[trigger] parse_csv_spec(data, None)[i],
                data_rows(tokenize_spec(data)),
            ),
{
    let rows = data_rows(tokenize_spec(data));
    let es = entries_of(rows);
    let r = parse_csv_spec(data, None);
    lemma_entries_of_rows(rows);
    history_is_newest_first(data, None);
    assert(r.to_multiset() == es.to_multiset());
    r.to_multiset_ensures();
    es.to_multiset_ensures();
    assert forall|j: int| 0 <= j < rows.len() && accepted_row(#[trigger] rows[j]) implies has_entry_for(r, rows[j]) by {
        assert(has_entry_for(es, rows[j]));
        let k = choose|k: int| 0 <= k < es.len() && entry_of_row(#[trigger] es[k], rows[j]);
        assert(es.contains(es[k]));
        assert(r.to_multiset().count(es[k]) > 0);
        assert(r.contains(es[k]));
        let i = choose|i: int| 0 <= i < r.len() && r[i] == es[k];
        assert(entry_of_row(r[i], rows[j]));
    }
    assert forall|i: int| 0 <= i < r.len() implies from_accepted_row(#[trigger] r[i], rows) by {
        assert(r.contains(r[i]));
        assert(es.to_multiset().count(r[i]) > 0);
        assert(es.contains(r[i]));
        let k = choose|k: int| 0 <= k < es.len() && es[k] == r[i];
        assert(from_accepted_row(es[k], rows));
    }
}

proof fn lemma_same_day_members(entries: Seq<HistoryRow>, target: LocalDateTime)
    ensures
        forall|i: int| 0 <= i < same_day(entries, target).len() ==> same_date(
            (#[trigger] same_day(entries, target)[i]).at_paris,
            target,
        ),
    decreases entries.len(),
{
    if entries.len() > 0 {
        lemma_same_day_members(entries.drop_last(), target);
        let prev = same_day(entries.drop_last(), target);
        let all = same_day(entries, target);
        assert forall|i: int| 0 <= i < all.len() implies same_date((#[trigger] all[i]).at_paris, target) by {
            if i < prev.len() {
                assert(all[i] == prev[i]);
            }
        }
    }
}

/// The closest-slot search returns only broadcasts of the target's Paris day, at most
/// `limit` of them, by increasing gap to the target time of day, and at equal gaps the
/// most recent first.
pub proof fn closest_search_is_ordered(entries: Seq<HistoryRow>, target: ParisTime, limit: usize)
    ensures
        search_closest_spec(entries, target, limit).len() <= limit,
        forall|i: int|
            0 <= i < search_closest_spec(entries, target, limit).len() ==> same_date(
                (#[trigger] search_closest_spec(entries, target, limit)[i]).at_paris,
                target.wall,
            ),
        forall|i: int, j: int|
            0 <= i < j < search_closest_spec(entries, target, limit).len() ==> {
                let a = #[trigger] search_closest_spec(entries, target, limit)[i];
                let b = #[trigger] search_closest_spec(entries, target, limit)[j];
                let t = target.wall.hour * 60 + target.wall.minute;
                gap_minutes(a, t) < gap_minutes(b, t) || (gap_minutes(a, t) == gap_minutes(b, t)
                    && not_older(a, b))
            },
{
    let t = target.wall.hour * 60 + target.wall.minute;
    let key = |e: HistoryRow| closest_key(e, t);
    let day = same_day(entries, target.wall);
    lemma_stable_sort_by_key(day, key);
    lemma_same_day_members(entries, target.wall);
    let sorted = stable_sort_by_key(day, key);
    let r = search_closest_spec(entries, target, limit);
    assert forall|i: int| 0 <= i < r.len() implies same_date((#[trigger] r[i]).at_paris, target.wall) by {
        assert(r[i] == sorted[i]);
        assert(sorted.to_multiset().count(sorted[i]) > 0) by {
            sorted.to_multiset_ensures();
            assert(sorted.contains(sorted[i]));
        }
        day.to_multiset_ensures();
        assert(day.contains(sorted[i]));
    }
    assert forall|i: int, j: int| 0 <= i < j < r.len() implies {
        let a = #[trigger] r[i];
        let b = #[trigger] r[j];
        gap_minutes(a, t) < gap_minutes(b, t) || (gap_minutes(a, t) == gap_minutes(b, t) && not_older(a, b))
    } by {
        assert(r[i] == sorted[i] && r[j] == sorted[j]);
        assert(key(sorted[i]) == closest_key(sorted[i], t));
        assert(key(sorted[j]) == closest_key(sorted[j], t));
    }
}

/// A copy of an entry.
pub fn copy_entry(e: &HistoryEntry) -> (r: HistoryEntry)
    ensures
        r@ == e@,
{
    HistoryEntry {
        timestamp_iso: e.timestamp_iso.clone(),
        artist: e.artist.clone(),
        title: e.title.clone(),
        album: e.album.clone(),
        year: e.year.clone(),
        at: e.at,
        at_paris: e.at_paris,
    }
}

/// The 10 (or `limit`) broadcasts closest to a slot on the same Paris day, by increasing
/// gap in minutes; at equal gaps, the most recent first.
pub fn search_closest(entries: &[HistoryEntry], target_paris: ParisTime, limit: usize) -> (r: Vec<
    HistoryEntry,
>)
    requires
        wall_ok(target_paris.wall),
    ensures
        r.deep_view() == search_closest_spec(entries.deep_view(), target_paris, limit),
{
    let target_day = target_paris.wall;
    let target_minute: i64 = target_paris.wall.hour as i64 * 60 + target_paris.wall.minute as i64;
    let mut matches: Vec<HistoryEntry> = Vec::new();
    let n = entries.len();
    assert(matches.deep_view() =~= same_day(entries.deep_view().take(0), target_day));
    for i in 0..n
        invariant
            n == entries.len(),
            matches.deep_view() == same_day(entries.deep_view().take(i as int), target_day),
    {
        let ghost all = entries.deep_view();
        assert(all.take(i + 1).drop_last() == all.take(i as int));
        assert(all.take(i + 1).last() == entries[i as int]@);
        let e = &entries[i];
        if e.at_paris.year == target_day.year && e.at_paris.month == target_day.month
            && e.at_paris.day == target_day.day {
            let ghost before = matches.deep_view();
            matches.push(copy_entry(e));
            assert(matches.deep_view() =~= before.push(e@));
        }
    }
    assert(entries.deep_view().take(n as int) == entries.deep_view());
    sort_closest_first(&mut matches, target_minute);
    matches.truncate(limit);
    matches
}

// ───────────────────────────── entry rendering ─────────────────────────────

/// Two-digit rendering (`{:02}`).
pub open spec fn two_digits(n: nat) -> Seq<char> {
    if n < 10 {
        seq!['0'] + decimal(n)
    } else {
        decimal(n)
    }
}

fn two_digits_exec(n: u32) -> (r: Vec<char>)
    ensures
        r@ == two_digits(n as nat),
{
    let d = u64_decimal(n as u64);
    if n < 10 {
        let mut r: Vec<char> = Vec::new();
        r.push('0');
        push_all(&mut r, d.as_slice());
        r
    } else {
        d
    }
}

/// The separator of secondary lines.
pub open spec fn bullet() -> Seq<char> {
    seq![' ', '\u{2022}', ' ']
}

/// Secondary line: the non-empty of `[artist, album, year]` joined by ` • `.
pub open spec fn metadata_line_spec(artist: Seq<char>, album: Seq<char>, year: Seq<char>) -> Seq<char> {
    join(non_empty_parts(seq![artist, album, year]), bullet())
}

/// Secondary line builder shared by the history and the now-playing models.
pub fn metadata_line_of(artist: &str, album: &str, year: &str) -> (r: String)
    ensures
        r@ == metadata_line_spec(artist@, album@, year@),
{
    let mut parts: Vec<Vec<char>> = Vec::new();
    parts.push(chars_of(artist));
    parts.push(chars_of(album));
    parts.push(chars_of(year));
    assert(parts.deep_view().len() == 3);
    assert(parts.deep_view()[0] == parts@[0]@);
    assert(parts.deep_view()[1] == parts@[1]@);
    assert(parts.deep_view()[2] == parts@[2]@);
    assert(parts.deep_view() =~= seq![artist@, album@, year@]);
    let kept = keep_non_empty(parts);
    let mut sep: Vec<char> = Vec::new();
    sep.push(' ');
    sep.push('\u{2022}');
    sep.push(' ');
    assert(sep@ =~= bullet());
    let joined = join_chars(&kept, sep.as_slice());
    string_from_chars(joined.as_slice())
}

impl HistoryEntry {
    /// Instant with its Paris wall clock.
    pub fn paris(&self) -> (r: ParisTime)
        ensures
            r.instant == self.at,
            r.wall == self.at_paris,
    {
        ParisTime { instant: self.at, wall: self.at_paris }
    }

    /// Time label `HH:MM` in Paris time.
    pub fn time_label(&self) -> (r: String)
        ensures
            r@ == two_digits(self.at_paris.hour as nat) + seq![':'] + two_digits(
                self.at_paris.minute as nat,
            ),
    {
        let mut v = two_digits_exec(self.at_paris.hour);
        v.push(':');
        let m = two_digits_exec(self.at_paris.minute);
        push_all(&mut v, m.as_slice());
        string_from_chars(v.as_slice())
    }

    /// Secondary line: `[artist, album, year]` non-empty, joined by ` • `.
    pub fn metadata_line(&self) -> (r: String)
        ensures
            r@ == metadata_line_spec(self.artist@, self.album@, self.year@),
    {
        metadata_line_of(self.artist.as_str(), self.album.as_str(), self.year.as_str())
    }

    /// Minute of the day in Paris.
    pub fn minute_of_day_paris(&self) -> (r: i64)
        ensures
            r == self.at_paris.hour * 60 + self.at_paris.minute,
    {
        self.at_paris.hour as i64 * 60 + self.at_paris.minute as i64
    }

    /// Identity (for de-duplication): the fields joined by `|`.
    pub fn identity(&self) -> (r: String)
        ensures
            r@ == join(
                seq![self.timestamp_iso@, self.artist@, self.title@, self.album@, self.year@],
                seq!['|'],
            ),
    {
        let mut parts: Vec<Vec<char>> = Vec::new();
        parts.push(chars_of(self.timestamp_iso.as_str()));
        parts.push(chars_of(self.artist.as_str()));
        parts.push(chars_of(self.title.as_str()));
        parts.push(chars_of(self.album.as_str()));
        parts.push(chars_of(self.year.as_str()));
        assert(parts.deep_view().len() == 5);
        assert(parts.deep_view()[0] == parts@[0]@);
        assert(parts.deep_view()[1] == parts@[1]@);
        assert(parts.deep_view()[2] == parts@[2]@);
        assert(parts.deep_view()[3] == parts@[3]@);
        assert(parts.deep_view()[4] == parts@[4]@);
        assert(parts.deep_view() =~= seq![
            self.timestamp_iso@,
            self.artist@,
            self.title@,
            self.album@,
            self.year@,
        ]);
        let mut sep: Vec<char> = Vec::new();
        sep.push('|');
        let joined = join_chars(&parts, sep.as_slice());
        string_from_chars(joined.as_slice())
    }
}

} // verus!
