use balancebeam::articles::{wiki_link, Article};

#[test]
fn links_to_articles_get_the_full_address() {
    assert_eq!(
        wiki_link(b"/wiki/Rust_(programming_language)"),
        Some(b"https://en.wikipedia.org/wiki/Rust_(programming_language)".to_vec())
    );
    assert_eq!(wiki_link(b"/wiki/"), Some(b"https://en.wikipedia.org/wiki/".to_vec()));
}

#[test]
fn other_links_are_left_out() {
    assert_eq!(wiki_link(b""), None);
    assert_eq!(wiki_link(b"/wiki"), None);
    assert_eq!(wiki_link(b"/w/index.php"), None);
    assert_eq!(wiki_link(b"#cite_note-1"), None);
    assert_eq!(wiki_link(b"https://example.org/wiki/Rust"), None);
    assert_eq!(wiki_link(b"/Wiki/Rust"), None);
    assert_eq!(wiki_link(b"/wikiX/Rust"), None);
}

#[test]
fn longest_article_is_kept() {
    let mut longest = Article::new();
    assert_eq!(longest.url, "");
    assert_eq!(longest.len, 0);
    longest.consider(&String::from("a"), 0);
    assert_eq!(longest.url, "");
    longest.consider(&String::from("a"), 10);
    assert_eq!((longest.url.as_str(), longest.len), ("a", 10));
    longest.consider(&String::from("b"), 10);
    assert_eq!((longest.url.as_str(), longest.len), ("a", 10));
    longest.consider(&String::from("c"), 9);
    assert_eq!((longest.url.as_str(), longest.len), ("a", 10));
    longest.consider(&String::from("d"), 11);
    assert_eq!((longest.url.as_str(), longest.len), ("d", 11));
}
