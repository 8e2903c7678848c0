use wnfs_cli::{take_clusters, truncate_graphemes};

fn chars(s: &str) -> Vec<char> {
    s.chars().collect()
}

#[test]
fn truncation_keeps_whole_clusters() {
    let s = "a\u{310}e\u{301}o\u{308}\u{332}";
    assert_eq!(truncate_graphemes(s, 2), chars("a\u{310}e\u{301}"));
    assert_eq!(truncate_graphemes(s, 0), Vec::<char>::new());
    assert_eq!(truncate_graphemes(s, 3), chars(s));
}

#[test]
fn short_text_is_kept_whole() {
    assert_eq!(truncate_graphemes("abc", 10), chars("abc"));
    assert_eq!(truncate_graphemes("", 4), Vec::<char>::new());
    assert_eq!(truncate_graphemes("a\r\nb", 2), chars("a\r\n"));
}

#[test]
fn take_clusters_joins_a_prefix() {
    let gs = vec![chars("🇷🇺"), chars("x"), chars("e\u{301}")];
    assert_eq!(take_clusters(&gs, 2), chars("🇷🇺x"));
    assert_eq!(take_clusters(&gs, 9), chars("🇷🇺xe\u{301}"));
}
