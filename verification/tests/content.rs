use drift_monitor::content::{
    split_at_value_end, split_front_matter, BlogPost, BlogPostFrontMatter, ContentItem, DocsGuide,
    DocsGuideFrontMatter,
};
use std::path::PathBuf;

#[test]
fn front_matter_is_the_first_value() {
    let document = "{\"title\": \"Hello\", \"date\": \"2021-03-01\"}\n# Hello\n\nText.\n";
    let (front, markdown) = split_front_matter(document).unwrap();
    assert_eq!(front, "{\"title\": \"Hello\", \"date\": \"2021-03-01\"}");
    assert_eq!(markdown, "\n# Hello\n\nText.\n");
    let parsed: serde_json::Value = serde_json::from_str(front).unwrap();
    assert_eq!(parsed["title"], "Hello");
}

#[test]
fn front_matter_may_nest_and_follow_blank_space() {
    let document = "  \n{\"a\": {\"b\": [1, \"}\"]}}{\"next\": 1}";
    let (front, markdown) = split_front_matter(document).unwrap();
    assert_eq!(front, "  \n{\"a\": {\"b\": [1, \"}\"]}}");
    assert_eq!(markdown, "{\"next\": 1}");
    let (front, markdown) = split_front_matter("{}").unwrap();
    assert_eq!(front, "{}");
    assert_eq!(markdown, "");
    let (front, markdown) = split_front_matter("\"t\u{e9}\"\u{e9}").unwrap();
    assert_eq!(front, "\"t\u{e9}\"");
    assert_eq!(markdown, "\u{e9}");
}

#[test]
fn document_without_front_matter() {
    assert_eq!(split_front_matter(""), None);
    assert_eq!(split_front_matter("# Title\n"), None);
    assert_eq!(split_front_matter("{\"title\": "), None);
    assert_eq!(split_front_matter("{\"title\" \"x\"}"), None);
    assert_eq!(split_front_matter("   "), None);
}

#[test]
fn cut_at_a_given_place() {
    assert_eq!(split_at_value_end("abcd", Some(0)), Some(("", "abcd")));
    assert_eq!(split_at_value_end("abcd", Some(2)), Some(("ab", "cd")));
    assert_eq!(split_at_value_end("abcd", Some(4)), Some(("abcd", "")));
    assert_eq!(split_at_value_end("abcd", Some(5)), None);
    assert_eq!(split_at_value_end("abcd", None), None);
    // inside a character there is no place to cut
    assert_eq!(split_at_value_end("a\u{e9}b", Some(2)), None);
    assert_eq!(split_at_value_end("a\u{e9}b", Some(3)), Some(("a\u{e9}", "b")));
}

#[test]
fn content_items() {
    assert_eq!(BlogPost::directory(), "crates/www/content/blog");
    assert_eq!(DocsGuide::directory(), "crates/www/content/docs_guides");
    let front_matter =
        BlogPostFrontMatter { title: "Hello".to_owned(), date: "2021-03-01".to_owned() };
    let item = ContentItem::new(
        PathBuf::from("crates/www/content/blog/hello/post.md"),
        "hello".to_owned(),
        front_matter.clone(),
        "# Hello".to_owned(),
    );
    assert_eq!(item.path, PathBuf::from("crates/www/content/blog/hello/post.md"));
    assert_eq!(item.slug, "hello");
    assert_eq!(item.front_matter, front_matter);
    assert_eq!(item.markdown, "# Hello");
    let guide = ContentItem::new(
        PathBuf::from("x"),
        "x".to_owned(),
        DocsGuideFrontMatter { title: "Guide".to_owned() },
        String::new(),
    );
    assert_eq!(guide.front_matter.title, "Guide");
}
