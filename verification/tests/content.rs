use lcn_core::content::{ContentImage, NewsEntry};

#[test]
fn image_resolution() {
    let base = "https://host/preprod/";
    let rel = ContentImage::resolve("assets/media/shows/lautrenuit.webp", base, true);
    assert_eq!(rel.url.as_deref(), Some("https://host/preprod/assets/media/shows/lautrenuit.webp"));
    assert_eq!(rel.base_name.as_deref(), Some("lautrenuit"));
    assert!(rel.fit_contain);

    let abs = ContentImage::resolve("https://x/y/z.png", base, false);
    assert_eq!(abs.url.as_deref(), Some("https://x/y/z.png"));
    assert_eq!(abs.base_name.as_deref(), Some("z"));

    let empty = ContentImage::resolve("", base, false);
    assert_eq!(empty.url, None);
    assert_eq!(empty.base_name, None);
}

#[test]
fn news_year_month() {
    let n = NewsEntry { sort_key: "2026-05-24-001".into(), ..Default::default() };
    assert_eq!(n.year(), Some("2026"));
    assert_eq!(n.month(), Some(5));
    let bad = NewsEntry { sort_key: "".into(), ..Default::default() };
    assert_eq!(bad.year(), None);
    assert_eq!(bad.month(), None);
}

#[test]
fn image_edge_cases() {
    // Surrounding spaces are trimmed; a blank path is no image.
    let t = ContentImage::resolve("  a/b.c.webp  ", "https://h/", false);
    assert_eq!(t.url.as_deref(), Some("https://h/a/b.c.webp"));
    assert_eq!(t.base_name.as_deref(), Some("b.c"));
    assert_eq!(ContentImage::resolve("   ", "https://h/", false).url, None);
    // A file name without extension is its own base name; "http://" is absolute too.
    let n = ContentImage::resolve("http://x/noext", "https://h/", false);
    assert_eq!(n.url.as_deref(), Some("http://x/noext"));
    assert_eq!(n.base_name.as_deref(), Some("noext"));
    // A path ending with a slash or a bare extension has no base name.
    assert_eq!(ContentImage::resolve("dir/", "https://h/", false).base_name, None);
    assert_eq!(ContentImage::resolve("x/.webp", "https://h/", false).base_name, None);
}

#[test]
fn news_month_bounds() {
    let m = |k: &str| NewsEntry { sort_key: k.into(), ..Default::default() }.month();
    assert_eq!(m("2026-12-01"), Some(12));
    assert_eq!(m("2026-13-01"), None);
    assert_eq!(m("2026-00-01"), None);
    assert_eq!(m("2026-1"), None);
    let y = |k: &str| NewsEntry { sort_key: k.into(), ..Default::default() }.year().map(str::to_string);
    assert_eq!(y("20a6-01"), None);
    assert_eq!(y("202"), None);
    assert_eq!(y("1999"), Some("1999".to_string()));
}
