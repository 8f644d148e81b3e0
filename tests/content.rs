use portfolio_desktop::content::{
    content_blocks, content_dir, content_ids, content_path, load_content, md_stem, title_of_id,
    ContentError, ContentKind,
};
use portfolio_desktop::markdown::Block;

#[test]
fn missing_project_names_the_id() {
    let r = load_content(ContentKind::Project, "nonexistent-id", None);
    let e = r.unwrap_err();
    assert_eq!(e, ContentError::NotFound(ContentKind::Project, "nonexistent-id".to_string()));
    assert!(e.message().contains("nonexistent-id"));
    assert_eq!(e.message(), "Could not find project: nonexistent-id");
}

#[test]
fn missing_blog_post_message() {
    let e = content_blocks(ContentKind::Blog, "hello", None).unwrap_err();
    assert_eq!(e.message(), "Could not find blog post: hello");
}

#[test]
fn content_is_converted_to_html() {
    let html = load_content(ContentKind::Blog, "hello", Some("# Hi\n\nthere".to_string())).unwrap();
    assert_eq!(html, "<h1>Hi</h1>\n<p>there</p>\n");
}

#[test]
fn html_conversion_has_tables_and_strikethrough() {
    let html =
        load_content(ContentKind::Project, "p", Some("~~old~~\n\n| a |\n|---|\n| 1 |\n".to_string()))
            .unwrap();
    assert!(html.contains("<del>old</del>"));
    assert!(html.contains("<table>"));
}

#[test]
fn content_is_converted_to_blocks() {
    let blocks = content_blocks(ContentKind::Blog, "hello", Some("plain words".to_string())).unwrap();
    assert_eq!(blocks, vec![Block::Label("plain words".to_string()), Block::Space(8)]);
}

#[test]
fn content_paths() {
    assert_eq!(content_dir(ContentKind::Blog), "blog");
    assert_eq!(content_path(ContentKind::Blog, "ai-journey"), "blog/ai-journey.md");
    assert_eq!(content_path(ContentKind::Project, "rust-desktop-app"), "projects/rust-desktop-app.md");
}

#[test]
fn stems_of_markdown_entries() {
    assert_eq!(md_stem("hello.md"), Some("hello".to_string()));
    assert_eq!(md_stem("x.tar.md"), Some("x.tar".to_string()));
    assert_eq!(md_stem("notes.txt"), None);
    assert_eq!(md_stem(".md"), None);
    assert_eq!(md_stem("md"), None);
    assert_eq!(md_stem("readme.MD"), None);
}

#[test]
fn listing_keeps_markdown_entries_in_order() {
    let names = vec![
        "welcome.md".to_string(),
        "image.png".to_string(),
        "ai-journey.md".to_string(),
        ".md".to_string(),
    ];
    assert_eq!(
        content_ids(Some(&names)),
        vec!["welcome".to_string(), "ai-journey".to_string()]
    );
}

#[test]
fn unreadable_directory_lists_nothing() {
    assert!(content_ids(None).is_empty());
    assert!(content_ids(Some(&Vec::new())).is_empty());
}

#[test]
fn titles_replace_dashes() {
    assert_eq!(title_of_id("rust-desktop-app"), "rust desktop app");
    assert_eq!(title_of_id("hello"), "hello");
    assert_eq!(title_of_id("-a--b-"), " a  b ");
    assert_eq!(title_of_id(""), "");
}
