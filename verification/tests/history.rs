use lcn_core::services::history::parse_tail;
use lcn_core::clock::paris_datetime;
use lcn_core::services::history::{parse_csv, parse_date, parse_recent, search_closest, tokenize};

#[test]
fn parse_date_iso_et_formats() {
    assert!(parse_date("2026-06-13T12:30:59Z").is_some());
    assert!(parse_date("2026-06-13T12:30:59.250Z").is_some());
    assert!(parse_date("2026-06-13 12:30:59").is_some());
    assert!(parse_date("13/06/2026 12:30").is_some());
    assert!(parse_date("ts_iso").is_none());
    assert!(parse_date("").is_none());
}

#[test]
fn entete_detecte_et_retire() {
    let csv = "ts_iso,ts_unix,artist,title,album,year\n\
               2026-06-13T12:30:59Z,1781950859,Artiste,Titre,Album,2020\n";
    let entries = parse_csv(csv, None);
    assert_eq!(entries.len(), 1);
    assert_eq!(entries[0].artist, "Artiste");
    assert_eq!(entries[0].title, "Titre");
}

#[test]
fn champ_avec_virgule_et_guillemets() {
    let csv = "ts_iso,ts_unix,artist,title,album,year\n\
               2026-06-13T12:30:59Z,1781950859,Death by Horsecock,\"À table (Déjeuner avec DBH | Lunch with DBH, 2020)\",EX1,2020\n";
    let entries = parse_csv(csv, None);
    assert_eq!(entries.len(), 1);
    assert_eq!(entries[0].title, "À table (Déjeuner avec DBH | Lunch with DBH, 2020)");
    assert_eq!(entries[0].album, "EX1");
}

#[test]
fn guillemet_litteral_et_retour_ligne_dans_champ() {
    let csv = "ts_iso,ts_unix,artist,title,album,year\n\
               2026-06-13T12:30:59Z,1,A,\"Ligne1\nLigne2 \"\"citée\"\"\",Alb,2021\n";
    let entries = parse_csv(csv, None);
    assert_eq!(entries.len(), 1);
    assert_eq!(entries[0].title, "Ligne1\nLigne2 \"citée\"");
}

#[test]
fn rejet_lignes_invalides() {
    let csv = "2026-06-13T12:30:59Z,1,Artiste,Titre,Album,2020\n\
               ,2,A,B,C,D\n\
               2026-06-13T13:00:00Z,3,,,X,Y\n\
               2026-06-13T13:05:00Z,4\n";
    let entries = parse_csv(csv, None);
    assert_eq!(entries.len(), 1);
    assert_eq!(entries[0].title, "Titre");
}

#[test]
fn tri_decroissant_et_cap() {
    let csv = "ts_iso,ts_unix,artist,title,album,year\n\
               2026-06-13T10:00:00Z,1,A,Vieux,,\n\
               2026-06-13T12:00:00Z,2,B,Recent,,\n\
               2026-06-13T11:00:00Z,3,C,Milieu,,\n";
    let entries = parse_csv(csv, None);
    assert_eq!(entries.iter().map(|e| e.title.as_str()).collect::<Vec<_>>(), ["Recent", "Milieu", "Vieux"]);
    assert_eq!(parse_csv(csv, Some(2)).len(), 2);
}

#[test]
fn recherche_creneau_le_plus_proche() {
    let csv = "ts_iso,ts_unix,artist,title,album,year\n\
               2026-06-13T12:00:00Z,1,A,Midi,,\n\
               2026-06-13T14:30:00Z,2,B,DeuxTrente,,\n\
               2026-06-13T13:00:00Z,3,C,Treize,,\n";
    let entries = parse_csv(csv, None);
    // In Paris (summer, UTC+2): Midi=14:00, Treize=15:00, DeuxTrente=16:30.
    let target = paris_datetime(2026, 6, 13, 15, 10).unwrap();
    let closest = search_closest(&entries, target, 10);
    assert_eq!(closest.first().unwrap().title, "Treize");
    assert_eq!(closest.len(), 3);
}

#[test]
fn closest_search_order_limit_and_day() {
    let csv = "2026-06-13T12:00:00Z,1,A,Midi,,\n\
               2026-06-13T14:30:00Z,2,B,DeuxTrente,,\n\
               2026-06-13T13:00:00Z,3,C,Treize,,\n\
               2026-06-12T13:05:00Z,4,D,Veille,,\n\
               2026-06-13T13:20:00Z,5,E,TreizeVingt,,\n";
    let entries = parse_csv(csv, None);
    let target = paris_datetime(2026, 6, 13, 15, 10).unwrap();
    let closest = search_closest(&entries, target, 10);
    // The previous day is left out; gaps 10 (Treize), 10 (TreizeVingt, more recent first),
    // 70 (Midi), 80 (DeuxTrente).
    let titles: Vec<&str> = closest.iter().map(|e| e.title.as_str()).collect();
    assert_eq!(titles, ["TreizeVingt", "Treize", "Midi", "DeuxTrente"]);
    assert_eq!(search_closest(&entries, target, 2).len(), 2);
    assert!(search_closest(&entries, target, 0).is_empty());
}

#[test]
fn entry_rendering() {
    let csv = "2026-06-13T12:05:09Z,1,Artiste,Titre,,2020\n";
    let e = &parse_csv(csv, None)[0];
    assert_eq!(e.time_label(), "14:05");
    assert_eq!(e.metadata_line(), "Artiste • 2020");
    assert_eq!(e.identity(), "2026-06-13T12:05:09Z|Artiste|Titre||2020");
    assert_eq!(e.minute_of_day_paris(), 14 * 60 + 5);
    assert_eq!(e.paris().wall.hour, 14);
}

#[test]
fn tokenizer_rules() {
    let rows = |s: &str| -> Vec<Vec<String>> { tokenize(&s.chars().collect::<Vec<char>>()) };
    // Empty lines are skipped, \r\n and \r end lines, the last line needs no break.
    assert_eq!(rows("\n\r\na,b\r\n\nc"), vec![vec!["a".to_string(), "b".to_string()], vec!["c".to_string()]]);
    assert_eq!(rows("x\ry"), vec![vec!["x".to_string()], vec!["y".to_string()]]);
    // A lone quoted empty field is still a row; a separator alone gives two empty fields.
    assert_eq!(rows("\"\""), vec![vec!["".to_string()]]);
    assert_eq!(rows(","), vec![vec!["".to_string(), "".to_string()]]);
    assert!(rows("").is_empty());
}

#[test]
fn recent_is_capped_at_240() {
    let mut csv = String::from("ts_iso,ts_unix,artist,title,album,year\n");
    for i in 0..250 {
        csv.push_str(&format!("2026-06-13T{:02}:{:02}:00Z,{},A,T{},,\n", i / 60, i % 60, i, i));
    }
    let recent = parse_recent(&csv);
    assert_eq!(recent.len(), 240);
    assert_eq!(recent[0].title, "T249");
    assert_eq!(parse_csv(&csv, None).len(), 250);
}

#[test]
fn partial_tail_drops_its_first_line() {
    let tail = "13T09:00:00Z,0,X,Coupé,,\n2026-06-13T12:30:59Z,1,A,Entier,,\n";
    let partial = parse_tail(tail, true);
    assert_eq!(partial.len(), 1);
    assert_eq!(partial[0].title, "Entier");
    // A whole file keeps its first line (here a dated row, so no header either).
    let whole = "2026-06-13T09:00:00Z,0,X,Premier,,\n2026-06-13T12:30:59Z,1,A,Entier,,\n";
    assert_eq!(parse_tail(whole, false).len(), 2);
    // No line break at all: nothing to drop.
    assert_eq!(parse_tail("2026-06-13T12:30:59Z,1,A,Seul,,", true).len(), 1);
}
