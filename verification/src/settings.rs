//! Persistent settings (volume, theme, window geometry) kept in a small `key=value`
//! file. This module is the file format: reading a value out of the file's text and
//! producing the new text after a write. Reading and writing the file itself is left
//! to the caller.
//!
//! A file is read line by line; a line with an `=` gives the entry (text before the
//! first `=`, trimmed) → (text after it, trimmed), a later line overriding an earlier
//! one with the same key; other lines are ignored. A file is written as one `key=value`
//! line per entry, in key order.
use vstd::prelude::*;

use crate::text::{
    chars_eq, chars_lt, chars_of, decimal_int, first_occurrence, first_occurrence_from,
    i64_decimal, lemma_i32_decimal_round_trip, lemma_seq_lt_irreflexive, lemma_seq_lt_total,
    lemma_seq_lt_transitive, lemma_trim_idempotent, occurs_at, parse_i32, parse_i32_spec,
    push_str, seq_lt, string_from_chars, sub_chars, trim, trim_chars, trim_end, trim_start,
};

verus! {

/// Key of the slider volume.
pub const VOLUME: &'static str = "volume";
/// Key of the theme preference: "auto" | "light" | "dark".
pub const THEME: &'static str = "theme";
/// Key of the window width.
pub const WINDOW_WIDTH: &'static str = "window_width";
/// Key of the window height.
pub const WINDOW_HEIGHT: &'static str = "window_height";
/// Key of the maximized flag.
pub const WINDOW_MAXIMIZED: &'static str = "window_maximized";

/// Entries of a settings file: (key, value) pairs.
pub type Entries = Seq<(Seq<char>, Seq<char>)>;

// ───────────────────────────── the model ─────────────────────────────

/// The pieces of `s` between newlines (the last piece may be empty). `str::lines` differs
/// only by dropping an empty last piece and a carriage return before a newline; neither
/// can change the entries, since an empty piece holds no `=` and a carriage return at
/// the end of a line is trimmed away.
pub open spec fn split_lines(s: Seq<char>) -> Seq<Seq<char>>
    decreases s.len(),
{
    if s.len() == 0 {
        seq![Seq::<char>::empty()]
    } else {
        let r = split_lines(s.drop_last());
        if s.last() == '\n' {
            r.push(Seq::<char>::empty())
        } else {
            r.update(r.len() - 1, r.last().push(s.last()))
        }
    }
}

/// The entry a line gives, if it holds an `=`.
pub open spec fn line_entry(line: Seq<char>) -> Option<(Seq<char>, Seq<char>)> {
    match first_occurrence(line, seq!['=']) {
        Some(i) => Some((trim(line.take(i)), trim(line.skip(i + 1)))),
        None => None,
    }
}

/// `entries` with `key` set to `value`: replaced in place, or inserted in key order.
pub open spec fn entries_insert(es: Entries, key: Seq<char>, value: Seq<char>) -> Entries
    decreases es.len(),
{
    if es.len() == 0 {
        seq![(key, value)]
    } else if es[0].0 == key {
        seq![(key, value)] + es.drop_first()
    } else if seq_lt(key, es[0].0) {
        seq![(key, value)] + es
    } else {
        seq![es[0]] + entries_insert(es.drop_first(), key, value)
    }
}

/// Entries after reading one more line.
pub open spec fn apply_line(es: Entries, line: Seq<char>) -> Entries {
    match line_entry(line) {
        Some(kv) => entries_insert(es, kv.0, kv.1),
        None => es,
    }
}

/// Entries after reading `lines` in order, starting from none.
pub open spec fn parse_lines(lines: Seq<Seq<char>>) -> Entries
    decreases lines.len(),
{
    if lines.len() == 0 {
        Seq::empty()
    } else {
        apply_line(parse_lines(lines.drop_last()), lines.last())
    }
}

/// The entries of a settings file's text.
pub open spec fn settings_entries(content: Seq<char>) -> Entries {
    parse_lines(split_lines(content))
}

/// The value stored under `key`.
pub open spec fn lookup(es: Entries, key: Seq<char>) -> Option<Seq<char>>
    decreases es.len(),
{
    if es.len() == 0 {
        None
    } else if es[0].0 == key {
        Some(es[0].1)
    } else {
        lookup(es.drop_first(), key)
    }
}

/// The line of an entry, without its newline.
pub open spec fn entry_line(e: (Seq<char>, Seq<char>)) -> Seq<char> {
    e.0 + seq!['='] + e.1
}

/// The text of a settings file holding `es`: one `key=value` line per entry.
pub open spec fn render(es: Entries) -> Seq<char>
    decreases es.len(),
{
    if es.len() == 0 {
        Seq::empty()
    } else {
        render(es.drop_last()) + entry_line(es.last()) + seq!['\n']
    }
}

/// A key that reads back as itself: no `=`, no newline, no surrounding whitespace.
pub open spec fn clean_key(k: Seq<char>) -> bool {
    !k.contains('=') && !k.contains('\n') && trim(k) == k
}

/// A value that reads back as itself: no newline, no surrounding whitespace.
pub open spec fn clean_value(v: Seq<char>) -> bool {
    !v.contains('\n') && trim(v) == v
}

/// Entries as a settings file holds them: clean keys and values, keys strictly
/// increasing.
pub open spec fn well_formed(es: Entries) -> bool {
    &&& forall|i: int| 0 <= i < es.len() ==> clean_key(#[trigger] es[i].0)
    &&& forall|i: int| 0 <= i < es.len() ==> clean_value(#[trigger] es[i].1)
    &&& forall|i: int, j: int| 0 <= i < j < es.len() ==> seq_lt(#[trigger] es[i].0, #[trigger] es[j].0)
}

/// What `get_bool` reads: `Some` only for an entry, `true` only for exactly "true".
pub open spec fn bool_of(value: Seq<char>) -> bool {
    value == seq!['t', 'r', 'u', 'e']
}

/// The text written for a boolean.
pub open spec fn bool_text(b: bool) -> Seq<char> {
    if b {
        seq!['t', 'r', 'u', 'e']
    } else {
        seq!['f', 'a', 'l', 's', 'e']
    }
}

// ───────────────────────────── lemmas on the model ─────────────────────────────

proof fn lemma_wf_at(es: Entries, i: int)
    requires
        well_formed(es),
        0 <= i < es.len(),
    ensures
        clean_key(es[i].0),
        clean_value(es[i].1),
{
}

proof fn lemma_split_len(s: Seq<char>)
    ensures
        split_lines(s).len() >= 1,
    decreases s.len(),
{
    if s.len() > 0 {
        lemma_split_len(s.drop_last());
    }
}

proof fn lemma_split_no_newline(x: Seq<char>)
    requires
        !x.contains('\n'),
    ensures
        split_lines(x) == seq![x],
    decreases x.len(),
{
    if x.len() > 0 {
        assert(!x.drop_last().contains('\n')) by {
            if x.drop_last().contains('\n') {
                let i = choose|i: int| 0 <= i < x.drop_last().len() && x.drop_last()[i] == '\n';
                assert(x[i] == '\n');
            }
        }
        lemma_split_no_newline(x.drop_last());
        assert(x.last() != '\n') by {
            assert(x[x.len() - 1] == x.last());
        }
        assert(x.drop_last().push(x.last()) == x);
        assert(seq![x.drop_last()].update(0, x.drop_last().push(x.last())) =~= seq![x]);
    } else {
        assert(x =~= Seq::<char>::empty());
    }
}

proof fn lemma_split_concat(a: Seq<char>, b: Seq<char>)
    ensures
        split_lines(a + seq!['\n'] + b) == split_lines(a) + split_lines(b),
    decreases b.len(),
{
    let s = a + seq!['\n'] + b;
    if b.len() == 0 {
        assert(s.drop_last() == a);
        assert(s.last() == '\n');
        assert(split_lines(a).push(Seq::<char>::empty()) == split_lines(a) + split_lines(b));
    } else {
        assert(s.drop_last() == a + seq!['\n'] + b.drop_last());
        assert(s.last() == b.last());
        lemma_split_concat(a, b.drop_last());
        lemma_split_len(b.drop_last());
        lemma_split_len(a);
        let ra = split_lines(a);
        let rb = split_lines(b.drop_last());
        if b.last() == '\n' {
            assert((ra + rb).push(Seq::<char>::empty()) == ra + rb.push(Seq::<char>::empty()));
        } else {
            assert((ra + rb).update(ra.len() + rb.len() - 1, rb.last().push(b.last())) == ra
                + rb.update(rb.len() - 1, rb.last().push(b.last())));
        }
    }
}

proof fn lemma_split_pieces(s: Seq<char>)
    ensures
        forall|i: int|
            0 <= i < split_lines(s).len() ==> !(#[trigger] split_lines(s)[i]).contains('\n'),
    decreases s.len(),
{
    if s.len() > 0 {
        lemma_split_pieces(s.drop_last());
        lemma_split_len(s.drop_last());
        let r = split_lines(s.drop_last());
        if s.last() != '\n' {
            let l = r.last().push(s.last());
            assert(!r[r.len() - 1].contains('\n'));
            assert(!l.contains('\n')) by {
                if l.contains('\n') {
                    let k = choose|k: int| 0 <= k < l.len() && l[k] == '\n';
                    if k < l.len() - 1 {
                        assert(r.last()[k] == '\n');
                    }
                }
            }
        }
    }
}

/// The lines of `es`.
spec fn entry_lines(es: Entries) -> Seq<Seq<char>> {
    Seq::new(es.len(), |i: int| entry_line(es[i]))
}

proof fn lemma_entry_line_no_newline(e: (Seq<char>, Seq<char>))
    requires
        !e.0.contains('\n'),
        !e.1.contains('\n'),
    ensures
        !entry_line(e).contains('\n'),
{
    let l = entry_line(e);
    if l.contains('\n') {
        let k = choose|k: int| 0 <= k < l.len() && l[k] == '\n';
        if k < e.0.len() {
            assert(e.0[k] == '\n');
        } else if k > e.0.len() {
            assert(e.1[k - e.0.len() - 1] == '\n');
        }
    }
}

proof fn lemma_split_render(es: Entries, t: Seq<char>)
    requires
        forall|i: int| 0 <= i < es.len() ==> !(#[trigger] es[i].0).contains('\n') && !es[i].1.contains('\n'),
    ensures
        split_lines(render(es) + t) == entry_lines(es) + split_lines(t),
    decreases es.len(),
{
    if es.len() == 0 {
        assert(render(es) + t == t);
        assert(entry_lines(es) + split_lines(t) == split_lines(t));
    } else {
        let d = es.drop_last();
        let l = entry_line(es.last());
        assert(render(es) + t == (render(d) + l) + seq!['\n'] + t);
        lemma_split_concat(render(d) + l, t);
        assert(forall|i: int| 0 <= i < d.len() ==> d[i] == es[i]);
        lemma_split_render(d, l);
        lemma_entry_line_no_newline(es.last());
        lemma_split_no_newline(l);
        assert(entry_lines(d) + seq![l] == entry_lines(es));
    }
}

proof fn lemma_first_occurrence_from_skip(s: Seq<char>, c: char, j: int, n: int)
    requires
        0 <= j <= n <= s.len(),
        forall|m: int| j <= m < n ==> s[m] != c,
    ensures
        first_occurrence_from(s, seq![c], j) == first_occurrence_from(s, seq![c], n),
    decreases n - j,
{
    if j < n {
        assert(s.subrange(j, j + 1)[0] == s[j]);
        assert(!occurs_at(s, seq![c], j));
        lemma_first_occurrence_from_skip(s, c, j + 1, n);
    }
}

proof fn lemma_first_occurrence_from_found(s: Seq<char>, c: char, j: int)
    requires
        0 <= j <= s.len(),
    ensures
        first_occurrence_from(s, seq![c], j) matches Some(i) ==> j <= i < s.len() && s[i] == c
            && forall|m: int| j <= m < i ==> s[m] != c,
        first_occurrence_from(s, seq![c], j) is None ==> forall|m: int| j <= m < s.len() ==> s[m] != c,
    decreases s.len() + 1 - j,
{
    if occurs_at(s, seq![c], j) {
        assert(s.subrange(j, j + 1)[0] == s[j]);
    } else {
        if j < s.len() {
            assert(s.subrange(j, j + 1) =~= seq![s[j]]);
            lemma_first_occurrence_from_found(s, c, j + 1);
        }
    }
}

proof fn lemma_line_entry_of_entry_line(e: (Seq<char>, Seq<char>))
    requires
        clean_key(e.0),
        clean_value(e.1),
    ensures
        line_entry(entry_line(e)) == Some(e),
{
    let l = entry_line(e);
    let k = e.0.len() as int;
    assert forall|m: int| 0 <= m < k implies l[m] != '=' by {
        assert(l[m] == e.0[m]);
    }
    lemma_first_occurrence_from_skip(l, '=', 0, k);
    assert(l.subrange(k, k + 1) =~= seq!['=']);
    assert(l.take(k) == e.0);
    assert(l.skip(k + 1) == e.1);
}

proof fn lemma_insert_after_all(es: Entries, key: Seq<char>, value: Seq<char>)
    requires
        forall|i: int| 0 <= i < es.len() ==> seq_lt(#[trigger] es[i].0, key),
    ensures
        entries_insert(es, key, value) == es.push((key, value)),
    decreases es.len(),
{
    if es.len() > 0 {
        assert(seq_lt(es[0].0, key));
        lemma_seq_lt_irreflexive(key);
        if seq_lt(key, es[0].0) {
            lemma_seq_lt_transitive(key, es[0].0, key);
        }
        let d = es.drop_first();
        assert(forall|i: int| 0 <= i < d.len() ==> d[i] == es[i + 1]);
        lemma_insert_after_all(d, key, value);
        assert(seq![es[0]] + d.push((key, value)) == es.push((key, value)));
    }
}

proof fn lemma_parse_rendered_lines(es: Entries)
    requires
        well_formed(es),
    ensures
        parse_lines(entry_lines(es)) == es,
    decreases es.len(),
{
    if es.len() > 0 {
        let d = es.drop_last();
        assert(entry_lines(es).drop_last() == entry_lines(d));
        assert(well_formed(d)) by {
            assert(forall|i: int| 0 <= i < d.len() ==> d[i] == es[i]);
        }
        lemma_parse_rendered_lines(d);
        let e = es.last();
        assert(clean_key(es[es.len() - 1].0));
        lemma_line_entry_of_entry_line(e);
        assert forall|i: int| 0 <= i < d.len() implies seq_lt(#[trigger] d[i].0, e.0) by {
            assert(seq_lt(es[i].0, es[es.len() - 1].0));
        }
        lemma_insert_after_all(d, e.0, e.1);
        assert(d.push(e) == es);
    }
}

/// Writing entries and reading them back gives the same entries.
pub proof fn settings_round_trip(es: Entries)
    requires
        well_formed(es),
    ensures
        settings_entries(render(es)) == es,
{
    assert forall|i: int| 0 <= i < es.len() implies !(#[trigger] es[i].0).contains('\n') && !es[i].1.contains('\n') by {
        lemma_wf_at(es, i);
    }
    lemma_split_render(es, Seq::empty());
    assert(render(es) + Seq::<char>::empty() == render(es));
    let ls = entry_lines(es) + seq![Seq::<char>::empty()];
    assert(split_lines(Seq::<char>::empty()) == seq![Seq::<char>::empty()]);
    assert(ls.drop_last() == entry_lines(es));
    lemma_first_occurrence_from_found(Seq::<char>::empty(), '=', 0);
    lemma_parse_rendered_lines(es);
}

proof fn lemma_no_char_drop_first(s: Seq<char>, c: char)
    requires
        !s.contains(c),
        s.len() > 0,
    ensures
        !s.drop_first().contains(c),
        !s.drop_last().contains(c),
{
    if s.drop_first().contains(c) {
        let k = choose|k: int| 0 <= k < s.drop_first().len() && s.drop_first()[k] == c;
        assert(s[k + 1] == c);
    }
    if s.drop_last().contains(c) {
        let k = choose|k: int| 0 <= k < s.drop_last().len() && s.drop_last()[k] == c;
        assert(s[k] == c);
    }
}

proof fn lemma_trim_keeps_absence(s: Seq<char>, c: char)
    requires
        !s.contains(c),
    ensures
        !trim_start(s).contains(c),
        !trim_end(s).contains(c),
        !trim(s).contains(c),
    decreases s.len(),
{
    if s.len() > 0 {
        lemma_no_char_drop_first(s, c);
        lemma_trim_keeps_absence(s.drop_first(), c);
        lemma_trim_keeps_absence(s.drop_last(), c);
        lemma_trim_keeps_absence_end(trim_start(s), c);
    }
}

proof fn lemma_trim_keeps_absence_end(s: Seq<char>, c: char)
    requires
        !s.contains(c),
    ensures
        !trim_end(s).contains(c),
    decreases s.len(),
{
    if s.len() > 0 {
        lemma_no_char_drop_first(s, c);
        lemma_trim_keeps_absence_end(s.drop_last(), c);
    }
}

proof fn lemma_no_char_sub(s: Seq<char>, c: char, a: int, b: int)
    requires
        !s.contains(c),
        0 <= a <= b <= s.len(),
    ensures
        !s.subrange(a, b).contains(c),
{
    if s.subrange(a, b).contains(c) {
        let k = choose|k: int| 0 <= k < s.subrange(a, b).len() && s.subrange(a, b)[k] == c;
        assert(s[a + k] == c);
    }
}

/// The entry of a line without newline has a clean key and a clean value.
proof fn lemma_line_entry_clean(line: Seq<char>)
    requires
        !line.contains('\n'),
    ensures
        line_entry(line) matches Some(kv) ==> clean_key(kv.0) && clean_value(kv.1),
{
    lemma_first_occurrence_from_found(line, '=', 0);
    if let Some(i) = first_occurrence(line, seq!['=']) {
        let before = line.take(i);
        let after = line.skip(i + 1);
        lemma_no_char_sub(line, '\n', 0, i);
        lemma_no_char_sub(line, '\n', i + 1, line.len() as int);
        assert(!before.contains('=')) by {
            if before.contains('=') {
                let k = choose|k: int| 0 <= k < before.len() && before[k] == '=';
                assert(line[k] == '=');
            }
        }
        lemma_trim_keeps_absence(before, '=');
        lemma_trim_keeps_absence(before, '\n');
        lemma_trim_keeps_absence(after, '\n');
        lemma_trim_idempotent(before);
        lemma_trim_idempotent(after);
    }
}

/// Setting a clean entry keeps entries well formed, stores the value under its key and
/// leaves every other key as it was.
proof fn lemma_insert_props(es: Entries, key: Seq<char>, value: Seq<char>)
    requires
        well_formed(es),
        clean_key(key),
        clean_value(value),
    ensures
        well_formed(entries_insert(es, key, value)),
        lookup(entries_insert(es, key, value), key) == Some(value),
        forall|k2: Seq<char>| k2 != key ==> lookup(entries_insert(es, key, value), k2) == lookup(es, k2),
        forall|i: int|
            0 <= i < entries_insert(es, key, value).len() ==> (#[trigger] entries_insert(es, key, value)[i].0 == key
                || exists|j: int| 0 <= j < es.len() && es[j].0 == entries_insert(es, key, value)[i].0),
    decreases es.len(),
{
    let r = entries_insert(es, key, value);
    if es.len() == 0 {
        assert(r.drop_first() =~= Seq::<(Seq<char>, Seq<char>)>::empty());
        assert forall|k2: Seq<char>| k2 != key implies lookup(r, k2) == lookup(es, k2) by {
            assert(lookup(r, k2) == lookup(r.drop_first(), k2));
        }
    } else if es[0].0 == key {
        let d = es.drop_first();
        assert(forall|i: int| 0 <= i < d.len() ==> d[i] == es[i + 1]);
        assert forall|i: int, j: int| 0 <= i < j < r.len() implies seq_lt(#[trigger] r[i].0, #[trigger] r[j].0) by {
            assert(seq_lt(es[i].0, es[j].0));
        }
        assert forall|k2: Seq<char>| k2 != key implies lookup(r, k2) == lookup(es, k2) by {
            assert(r.drop_first() == d);
        }
        assert forall|i: int| 0 <= i < r.len() implies (#[trigger] r[i].0 == key || exists|j: int| 0 <= j < es.len() && es[j].0 == r[i].0) by {
            if i > 0 {
                assert(es[i].0 == r[i].0);
            }
        }
        assert forall|i: int| 0 <= i < r.len() implies clean_key(r[i].0) && clean_value(r[i].1) by {
            if i > 0 {
                assert(r[i] == es[i]);
            }
        }
    } else if seq_lt(key, es[0].0) {
        assert(r.drop_first() == es);
        assert forall|k2: Seq<char>| k2 != key implies lookup(r, k2) == lookup(es, k2) by {
            assert(lookup(r, k2) == lookup(r.drop_first(), k2));
        }
        assert forall|i: int, j: int| 0 <= i < j < r.len() implies seq_lt(#[trigger] r[i].0, #[trigger] r[j].0) by {
            if i == 0 {
                if j > 1 {
                    assert(seq_lt(es[0].0, es[j - 1].0));
                    lemma_seq_lt_transitive(key, es[0].0, es[j - 1].0);
                }
            } else {
                assert(seq_lt(es[i - 1].0, es[j - 1].0));
            }
        }
        assert forall|i: int| 0 <= i < r.len() implies (#[trigger] r[i].0 == key || exists|j: int| 0 <= j < es.len() && es[j].0 == r[i].0) by {
            if i > 0 {
                assert(es[i - 1].0 == r[i].0);
            }
        }
        assert forall|i: int| 0 <= i < r.len() implies clean_key(r[i].0) && clean_value(r[i].1) by {
            if i > 0 {
                assert(r[i] == es[i - 1]);
            }
        }
    } else {
        lemma_seq_lt_total(key, es[0].0);
        assert(seq_lt(es[0].0, key));
        let d = es.drop_first();
        assert(forall|i: int| 0 <= i < d.len() ==> d[i] == es[i + 1]);
        assert forall|i: int| 0 <= i < d.len() implies clean_key(d[i].0) && clean_value(d[i].1) by {
            lemma_wf_at(es, i + 1);
        }
        assert forall|i: int, j: int| 0 <= i < j < d.len() implies seq_lt(#[trigger] d[i].0, #[trigger] d[j].0) by {
            assert(seq_lt(es[i + 1].0, es[j + 1].0));
        }
        lemma_insert_props(d, key, value);
        let rd = entries_insert(d, key, value);
        assert(r == seq![es[0]] + rd);
        assert(r.drop_first() == rd);
        lemma_seq_lt_irreflexive(key);
        assert forall|i: int, j: int| 0 <= i < j < r.len() implies seq_lt(#[trigger] r[i].0, #[trigger] r[j].0) by {
            if i == 0 {
                assert(r[j] == rd[j - 1]);
                if rd[j - 1].0 != key {
                    let m = choose|m: int| 0 <= m < d.len() && d[m].0 == rd[j - 1].0;
                    assert(seq_lt(es[0].0, es[m + 1].0));
                }
            } else {
                assert(r[i] == rd[i - 1] && r[j] == rd[j - 1]);
            }
        }
        assert forall|i: int| 0 <= i < r.len() implies (#[trigger] r[i].0 == key || exists|j: int| 0 <= j < es.len() && es[j].0 == r[i].0) by {
            if i == 0 {
                assert(es[0].0 == r[0].0);
            } else {
                assert(r[i] == rd[i - 1]);
                if rd[i - 1].0 != key {
                    let m = choose|m: int| 0 <= m < d.len() && d[m].0 == rd[i - 1].0;
                    assert(es[m + 1].0 == r[i].0);
                }
            }
        }
        assert forall|i: int| 0 <= i < r.len() implies clean_key(r[i].0) && clean_value(r[i].1) by {
            if i > 0 {
                assert(r[i] == rd[i - 1]);
            }
        }
        assert(r[0] == es[0]);
        assert(es.drop_first() == d);
        assert forall|k2: Seq<char>| k2 != key implies lookup(r, k2) == lookup(es, k2) by {
            if k2 != es[0].0 {
                assert(lookup(r, k2) == lookup(rd, k2));
                assert(lookup(es, k2) == lookup(d, k2));
            }
        }
    }
}

proof fn lemma_apply_line_wf(es: Entries, line: Seq<char>)
    requires
        well_formed(es),
        !line.contains('\n'),
    ensures
        well_formed(apply_line(es, line)),
{
    lemma_line_entry_clean(line);
    if let Some(kv) = line_entry(line) {
        lemma_insert_props(es, kv.0, kv.1);
    }
}

proof fn lemma_parse_lines_wf(ls: Seq<Seq<char>>)
    requires
        forall|i: int| 0 <= i < ls.len() ==> !(#[trigger] ls[i]).contains('\n'),
    ensures
        well_formed(parse_lines(ls)),
    decreases ls.len(),
{
    if ls.len() > 0 {
        let d = ls.drop_last();
        assert(forall|i: int| 0 <= i < d.len() ==> d[i] == ls[i]);
        lemma_parse_lines_wf(d);
        assert(!ls[ls.len() - 1].contains('\n'));
        lemma_apply_line_wf(parse_lines(d), ls.last());
    }
}

/// Whatever a settings file holds, the entries read from it are well formed.
pub proof fn settings_entries_well_formed(content: Seq<char>)
    ensures
        well_formed(settings_entries(content)),
{
    lemma_split_pieces(content);
    lemma_parse_lines_wf(split_lines(content));
}

/// Reading back a written value gives it: after `set(content, key, value)` the file reads
/// `value` under `key` and what it read before under every other key, provided the key
/// and the value read back as themselves (see `clean_key`, `clean_value`).
pub proof fn get_after_set(content: Seq<char>, key: Seq<char>, value: Seq<char>, other: Seq<char>)
    requires
        clean_key(key),
        clean_value(value),
    ensures
        lookup(settings_entries(render(entries_insert(settings_entries(content), key, value))), key)
            == Some(value),
        other != key ==> lookup(
            settings_entries(render(entries_insert(settings_entries(content), key, value))),
            other,
        ) == lookup(settings_entries(content), other),
{
    settings_entries_well_formed(content);
    lemma_insert_props(settings_entries(content), key, value);
    settings_round_trip(entries_insert(settings_entries(content), key, value));
}

/// An `i32` written by `set_i32` is read back by `get_i32`.
pub proof fn get_i32_after_set_i32(content: Seq<char>, key: Seq<char>, value: i32)
    requires
        clean_key(key),
    ensures
        parse_i32_spec(
            lookup(
                settings_entries(render(entries_insert(settings_entries(content), key, decimal_int(value as int)))),
                key,
            )->0,
        ) == Some(value),
{
    let d = decimal_int(value as int);
    lemma_i32_decimal_round_trip(value);
    assert(clean_value(d)) by {
        crate::text::lemma_decimal_digits(if value < 0 { (-value) as nat } else { value as nat });
        assert(!d.contains('\n')) by {
            if d.contains('\n') {
                let k = choose|k: int| 0 <= k < d.len() && d[k] == '\n';
                if value < 0 && k > 0 {
                    assert(d[k] == crate::text::decimal((-value) as nat)[k - 1]);
                }
            }
        }
        assert(trim_start(d) == d);
        assert(trim_end(d) == d);
    }
    get_after_set(content, key, d, seq![]);
}

/// A boolean written by `set_bool` is read back by `get_bool`.
pub proof fn get_bool_after_set_bool(content: Seq<char>, key: Seq<char>, value: bool)
    requires
        clean_key(key),
    ensures
        lookup(settings_entries(render(entries_insert(settings_entries(content), key, bool_text(value)))), key)
            == Some(bool_text(value)),
        bool_of(bool_text(value)) == value,
{
    let t = bool_text(value);
    assert(clean_value(t)) by {
        assert(!t.contains('\n')) by {
            if t.contains('\n') {
                let k = choose|k: int| 0 <= k < t.len() && t[k] == '\n';
            }
        }
        assert(trim_start(t) == t);
        assert(trim_end(t) == t);
    }
    if !value {
        assert(t[0] != 't');
    }
    get_after_set(content, key, t, seq![]);
}

// ───────────────────────────── reading and writing the text ─────────────────────────────

/// Index of the first `=` of a line.
fn first_eq_sign(line: &[char]) -> (r: Option<usize>)
    ensures
        r matches Some(i) ==> first_occurrence(line@, seq!['=']) == Some(i as int) && i < line.len(),
        r is None ==> first_occurrence(line@, seq!['=']) is None,
{
    let mut i: usize = 0;
    while i < line.len()
        invariant
            i <= line@.len(),
            forall|m: int| 0 <= m < i ==> line@[m] != '=',
        decreases line@.len() - i,
    {
        if line[i] == '=' {
            proof {
                lemma_first_occurrence_from_skip(line@, '=', 0, i as int);
                assert(line@.subrange(i as int, i + 1) =~= seq!['=']);
            }
            return Some(i);
        }
        i += 1;
    }
    proof {
        lemma_first_occurrence_from_skip(line@, '=', 0, i as int);
        assert(first_occurrence_from(line@, seq!['='], i + 1) is None);
    }
    None
}

/// Sets `key` to `value` in `es`: replaced in place, or inserted in key order.
fn insert_entry(es: &mut Vec<(String, String)>, key: String, value: String)
    ensures
        final(es).deep_view() == entries_insert(old(es).deep_view(), key@, value@),
{
    let ghost all = es.deep_view();
    let kc = chars_of(key.as_str());
    let mut i: usize = 0;
    proof {
        assert(all.take(0) + all.skip(0) == all);
        assert(all.skip(0) == all);
    }
    while i < es.len()
        invariant
            i <= es@.len(),
            all == es.deep_view(),
            all == old(es).deep_view(),
            kc@ == key@,
            entries_insert(all, key@, value@) == all.take(i as int) + entries_insert(
                all.skip(i as int),
                key@,
                value@,
            ),
        decreases es@.len() - i,
    {
        let ki = chars_of(es[i].0.as_str());
        proof {
            assert(all[i as int] == (es@[i as int].0@, es@[i as int].1@));
            assert(all.skip(i as int)[0] == all[i as int]);
        }
        if chars_eq(ki.as_slice(), kc.as_slice()) {
            es.remove(i);
            es.insert(i, (key, value));
            proof {
                assert(all.skip(i as int).drop_first() == all.skip(i + 1));
                assert(es.deep_view() =~= all.take(i as int) + (seq![(key@, value@)] + all.skip(i + 1)));
            }
            return;
        }
        if chars_lt(kc.as_slice(), ki.as_slice()) {
            es.insert(i, (key, value));
            proof {
                assert(es.deep_view() =~= all.take(i as int) + (seq![(key@, value@)] + all.skip(i as int)));
            }
            return;
        }
        proof {
            assert(all.skip(i as int).drop_first() == all.skip(i + 1));
            assert(all.take(i as int) + (seq![all[i as int]] + entries_insert(all.skip(i + 1), key@, value@))
                == all.take(i + 1) + entries_insert(all.skip(i + 1), key@, value@));
        }
        i += 1;
    }
    proof {
        assert(all.skip(i as int) =~= Seq::<(Seq<char>, Seq<char>)>::empty());
        assert(all.take(i as int) == all);
    }
    es.push((key, value));
    proof {
        assert(es.deep_view() =~= all + seq![(key@, value@)]);
    }
}

/// Reads one line into `es`.
fn apply_line_exec(es: &mut Vec<(String, String)>, line: &[char])
    ensures
        final(es).deep_view() == apply_line(old(es).deep_view(), line@),
{
    match first_eq_sign(line) {
        Some(i) => {
            assert(i < line.len());
            let before = sub_chars(line, 0, i);
            let after = sub_chars(line, i + 1, line.len());
            let k = trim_chars(before.as_slice());
            let v = trim_chars(after.as_slice());
            proof {
                assert(before@ == line@.take(i as int));
                assert(after@ == line@.skip(i + 1));
            }
            insert_entry(es, string_from_chars(k.as_slice()), string_from_chars(v.as_slice()));
        },
        None => {},
    }
}

/// The entries of a settings file's text, in key order.
pub fn parse_entries(content: &str) -> (r: Vec<(String, String)>)
    ensures
        r.deep_view() == settings_entries(content@),
{
    let chars = chars_of(content);
    let mut es: Vec<(String, String)> = Vec::new();
    let mut line: Vec<char> = Vec::new();
    let mut i: usize = 0;
    proof {
        assert(chars@.take(0) =~= Seq::<char>::empty());
        assert(es.deep_view() =~= Seq::<(Seq<char>, Seq<char>)>::empty());
    }
    while i < chars.len()
        invariant
            i <= chars@.len(),
            chars@ == content@,
            split_lines(chars@.take(i as int)).last() == line@,
            parse_lines(split_lines(chars@.take(i as int)).drop_last()) == es.deep_view(),
        decreases chars@.len() - i,
    {
        let c = chars[i];
        let ghost before = split_lines(chars@.take(i as int));
        proof {
            assert(chars@.take(i + 1).drop_last() == chars@.take(i as int));
            assert(chars@.take(i + 1).last() == c);
            lemma_split_len(chars@.take(i as int));
        }
        if c == '\n' {
            apply_line_exec(&mut es, line.as_slice());
            line = Vec::new();
            proof {
                let after = split_lines(chars@.take(i + 1));
                assert(after == before.push(Seq::<char>::empty()));
                assert(after.drop_last() == before);
                assert(line@ =~= Seq::<char>::empty());
            }
        } else {
            line.push(c);
            proof {
                let after = split_lines(chars@.take(i + 1));
                assert(after.drop_last() =~= before.drop_last());
            }
        }
        i += 1;
    }
    proof {
        let ls = split_lines(chars@.take(i as int));
        lemma_split_len(chars@.take(i as int));
        assert(chars@.take(i as int) == chars@);
        assert(ls.drop_last().push(ls.last()) == ls);
    }
    apply_line_exec(&mut es, line.as_slice());
    es
}

/// The text of a settings file holding `es`.
pub fn render_entries(es: &Vec<(String, String)>) -> (r: String)
    ensures
        r@ == render(es.deep_view()),
{
    let ghost all = es.deep_view();
    let mut out: Vec<char> = Vec::new();
    let mut i: usize = 0;
    proof {
        assert(all.take(0) =~= Seq::<(Seq<char>, Seq<char>)>::empty());
    }
    while i < es.len()
        invariant
            i <= es@.len(),
            all == es.deep_view(),
            out@ == render(all.take(i as int)),
        decreases es@.len() - i,
    {
        push_str(&mut out, es[i].0.as_str());
        out.push('=');
        push_str(&mut out, es[i].1.as_str());
        out.push('\n');
        proof {
            assert(all[i as int] == (es@[i as int].0@, es@[i as int].1@));
            assert(all.take(i + 1).drop_last() == all.take(i as int));
            assert(all.take(i + 1).last() == all[i as int]);
        }
        i += 1;
    }
    proof {
        assert(all.take(i as int) == all);
    }
    string_from_chars(out.as_slice())
}

/// The value stored under `key` in `es`.
fn lookup_exec(es: &Vec<(String, String)>, key: &str) -> (r: Option<String>)
    ensures
        r matches Some(v) ==> lookup(es.deep_view(), key@) == Some(v@),
        r is None ==> lookup(es.deep_view(), key@) is None,
{
    let ghost all = es.deep_view();
    let kc = chars_of(key);
    let mut i: usize = 0;
    proof {
        assert(all.skip(0) == all);
    }
    while i < es.len()
        invariant
            i <= es@.len(),
            all == es.deep_view(),
            kc@ == key@,
            lookup(all, key@) == lookup(all.skip(i as int), key@),
        decreases es@.len() - i,
    {
        let ki = chars_of(es[i].0.as_str());
        proof {
            assert(all[i as int] == (es@[i as int].0@, es@[i as int].1@));
            assert(all.skip(i as int)[0] == all[i as int]);
            assert(all.skip(i as int).drop_first() == all.skip(i + 1));
        }
        if chars_eq(ki.as_slice(), kc.as_slice()) {
            return Some(es[i].1.clone());
        }
        i += 1;
    }
    proof {
        assert(all.skip(i as int) =~= Seq::<(Seq<char>, Seq<char>)>::empty());
    }
    None
}

/// Reads the raw value stored under `key` in a settings file's text.
pub fn get(content: &str, key: &str) -> (r: Option<String>)
    ensures
        r matches Some(v) ==> lookup(settings_entries(content@), key@) == Some(v@),
        r is None ==> lookup(settings_entries(content@), key@) is None,
{
    let es = parse_entries(content);
    lookup_exec(&es, key)
}

/// The new text of a settings file after writing `value` under `key` (the file is read,
/// modified and written back whole; it stays tiny).
pub fn set(content: &str, key: &str, value: &str) -> (r: String)
    ensures
        r@ == render(entries_insert(settings_entries(content@), key@, value@)),
{
    let mut es = parse_entries(content);
    let k = chars_of(key);
    let v = chars_of(value);
    insert_entry(&mut es, string_from_chars(k.as_slice()), string_from_chars(v.as_slice()));
    render_entries(&es)
}

/// Reads an `i32` under `key`, or `default` when absent or not an `i32`.
pub fn get_i32(content: &str, key: &str, default: i32) -> (r: i32)
    ensures
        r == (match lookup(settings_entries(content@), key@) {
            Some(v) => match parse_i32_spec(v) {
                Some(n) => n,
                None => default,
            },
            None => default,
        }),
{
    match get(content, key) {
        Some(s) => {
            let c = chars_of(s.as_str());
            match parse_i32(c.as_slice()) {
                Some(n) => n,
                None => default,
            }
        },
        None => default,
    }
}

/// Reads a boolean under `key` (`true` exactly for the text "true"), or `default` when
/// absent.
pub fn get_bool(content: &str, key: &str, default: bool) -> (r: bool)
    ensures
        r == (match lookup(settings_entries(content@), key@) {
            Some(v) => bool_of(v),
            None => default,
        }),
{
    match get(content, key) {
        Some(s) => {
            let c = chars_of(s.as_str());
            let t = chars_of("true");
            proof {
                reveal_strlit("true");
                assert("true"@ =~= seq!['t', 'r', 'u', 'e']);
            }
            chars_eq(c.as_slice(), t.as_slice())
        },
        None => default,
    }
}

/// The new text after writing an `i32` (in decimal) under `key`.
pub fn set_i32(content: &str, key: &str, value: i32) -> (r: String)
    ensures
        r@ == render(entries_insert(settings_entries(content@), key@, decimal_int(value as int))),
{
    let digits = i64_decimal(value as i64);
    let text = string_from_chars(digits.as_slice());
    set(content, key, text.as_str())
}

/// The new text after writing a boolean ("true" / "false") under `key`.
pub fn set_bool(content: &str, key: &str, value: bool) -> (r: String)
    ensures
        r@ == render(entries_insert(settings_entries(content@), key@, bool_text(value))),
{
    proof {
        reveal_strlit("true");
        reveal_strlit("false");
        assert("true"@ =~= seq!['t', 'r', 'u', 'e']);
        assert("false"@ =~= seq!['f', 'a', 'l', 's', 'e']);
    }
    if value {
        set(content, key, "true")
    } else {
        set(content, key, "false")
    }
}

} // verus!
