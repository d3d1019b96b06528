use kenespartadev::dates::can_write_rfc2822;
use kenespartadev::dto::{BlogPostSummaryDTO, PostMarkdownDTO};
use kenespartadev::errors::UseCaseError;
use kenespartadev::seo::{
    escape_xml, feed_document, link_text, llms_txt_document, markdown_reply, markdown_rewrite,
    site_pages, sitemap_document, trailing_slash_redirect, MarkdownReply, SitePage,
};
use kenespartadev::text::{is_blank, one_line, trimmed};
use kenespartadev::ui::{escape_json_for_script, nav_link_class, post_path, shows_nav_bar};

const SITE: &str = "https://kenesparta.dev";

fn summary(slug: &str, title: &str, text: &str) -> BlogPostSummaryDTO {
    BlogPostSummaryDTO {
        post_id: "id".into(),
        title: title.into(),
        slug: slug.into(),
        summary: text.into(),
        author: "Ken Esparta".into(),
        tags: vec![],
        created_at: 0,
        updated_at: 86_400,
        published_at: None,
    }
}

#[test]
fn one_line_folds_whitespace() {
    assert_eq!(one_line("  a\n b \t\tc  "), "a b c");
    assert_eq!(one_line(""), "");
    assert_eq!(one_line("\n\n"), "");
    assert_eq!(one_line("single"), "single");
}

#[test]
fn trimming_and_blank_text() {
    assert_eq!(trimmed("  x y \n"), "x y");
    assert!(is_blank(" \n\t"));
    assert!(is_blank(""));
    assert!(!is_blank(" a "));
}

#[test]
fn link_text_escapes_brackets() {
    assert_eq!(link_text("A [draft]\ntitle"), "A \\[draft\\] title");
}

#[test]
fn xml_escaping() {
    assert_eq!(escape_xml("a<b>&\"c\""), "a&lt;b&gt;&amp;&quot;c&quot;");
    assert_eq!(escape_xml("plain"), "plain");
}

#[test]
fn sitemap_lists_pages_then_posts() {
    let pages = site_pages();
    let posts = vec![summary("a&b", "T", "S")];
    let xml = sitemap_document(SITE, &pages, &posts);
    let expected = format!(
        "<?xml version=\"1.0\" encoding=\"UTF-8\"?><urlset xmlns=\"http://www.sitemaps.org/schemas/sitemap/0.9\">\
         <url><loc>{SITE}/</loc></url><url><loc>{SITE}/about</loc></url><url><loc>{SITE}/blog</loc></url>\
         <url><loc>{SITE}/experience</loc></url><url><loc>{SITE}/projects</loc></url>\
         <url><loc>{SITE}/blog/a&amp;b</loc><lastmod>1970-01-02T00:00:00+00:00</lastmod></url></urlset>"
    );
    assert_eq!(xml, expected);
}

#[test]
fn sitemap_without_date_when_out_of_range() {
    let mut post = summary("x", "T", "S");
    post.updated_at = i64::MAX;
    let xml = sitemap_document(SITE, &[], &[post]);
    assert!(xml.ends_with("<url><loc>https://kenesparta.dev/blog/x</loc></url></urlset>"));
}

#[test]
fn feed_items_carry_escaped_fields() {
    let mut post = summary("hello", "Fish & Chips", "<b>bold</b>");
    post.published_at = Some(0);
    let xml = feed_document(SITE, "Notes & essays", &[post]);
    assert!(xml.starts_with(
        "<?xml version=\"1.0\" encoding=\"UTF-8\"?><rss version=\"2.0\" xmlns:atom=\"http://www.w3.org/2005/Atom\"><channel><title>Ken Esparta - Blog</title><link>https://kenesparta.dev/blog</link><description>Notes &amp; essays</description><language>en</language>"
    ));
    assert!(xml.contains(
        "<item><title>Fish &amp; Chips</title><link>https://kenesparta.dev/blog/hello</link><guid isPermaLink=\"true\">https://kenesparta.dev/blog/hello</guid><pubDate>Thu, 1 Jan 1970 00:00:00 +0000</pubDate><description>&lt;b&gt;bold&lt;/b&gt;</description></item>"
    ));
    assert!(xml.ends_with("</channel></rss>"));
}

#[test]
fn feed_items_beyond_chronos_range_have_no_date() {
    let mut post = summary("far", "T", "S");
    post.published_at = Some(i64::MAX);
    let xml = feed_document(SITE, "d", &[post]);
    assert!(xml.contains("<pubDate></pubDate>"));
    let mut early = summary("early", "T", "S");
    early.created_at = i64::MIN;
    let xml = feed_document(SITE, "d", &[early]);
    assert!(xml.contains("<guid isPermaLink=\"true\">https://kenesparta.dev/blog/early</guid><pubDate></pubDate>"));
    assert!(can_write_rfc2822(i64::MAX));
    assert!(can_write_rfc2822(0));
    assert!(!can_write_rfc2822(-62_167_219_201));
    assert!(!can_write_rfc2822(253_402_300_800));
}

#[test]
fn llms_txt_layout() {
    let pages = vec![SitePage {
        path: "/".into(),
        label: "Home".into(),
        description: "Landing.".into(),
    }];
    let empty = llms_txt_document(SITE, "Meta\ntext", "Blog\ntext", &pages, &[]);
    assert_eq!(
        empty,
        "# Ken Esparta\n\n> Meta text\n\nPersonal site and blog. Every post below is also available as clean Markdown at its page URL plus a `.md` suffix — prefer those over the HTML pages.\n\n## Blog\n\nNo published posts yet.\n\n## Pages\n\n- [Home](https://kenesparta.dev/): Landing.\n\n## Optional\n\n- [RSS feed](https://kenesparta.dev/feed.xml): Blog text\n- [Sitemap](https://kenesparta.dev/sitemap.xml): Every indexable URL on the site.\n"
    );
    let posts = vec![summary("intro", "A [new]\nblog", "two\nlines")];
    let doc = llms_txt_document(SITE, "M", "B", &pages, &posts);
    assert!(doc.contains("## Blog\n\n- [A \\[new\\] blog](https://kenesparta.dev/blog/intro.md): two lines\n\n## Pages"));
    assert!(!doc.contains("No published posts yet."));
}

fn md(status: &str, source: &str) -> PostMarkdownDTO {
    PostMarkdownDTO {
        slug: "s".into(),
        title: "Title".into(),
        status: status.into(),
        content_md: source.into(),
    }
}

#[test]
fn markdown_variant_replies() {
    match markdown_reply(Ok(Some(md("published", "Body")))) {
        MarkdownReply::Document(doc) => assert_eq!(doc, "# Title\n\nBody"),
        other => panic!("unexpected {other:?}"),
    }
    assert!(matches!(markdown_reply(Ok(Some(md("draft", "Body")))), MarkdownReply::NotFound));
    assert!(matches!(markdown_reply(Ok(Some(md("published", "  \n")))), MarkdownReply::NotFound));
    assert!(matches!(markdown_reply(Ok(None)), MarkdownReply::NotFound));
    assert!(matches!(markdown_reply(Err(UseCaseError::NotFound)), MarkdownReply::Failed));
}

#[test]
fn trailing_slashes_redirect_to_same_origin() {
    assert_eq!(trailing_slash_redirect("/blog/", None).as_deref(), Some("/blog"));
    assert_eq!(trailing_slash_redirect("//evil.com/", None).as_deref(), Some("/evil.com"));
    assert_eq!(trailing_slash_redirect("/\\evil.com/", None).as_deref(), Some("/evil.com"));
    assert_eq!(trailing_slash_redirect("///", None).as_deref(), Some("/"));
    assert_eq!(trailing_slash_redirect("/blog/", Some("a=1")).as_deref(), Some("/blog?a=1"));
    assert_eq!(trailing_slash_redirect("/", None), None);
    assert_eq!(trailing_slash_redirect("/blog", None), None);
}

#[test]
fn markdown_suffix_rewrites() {
    assert_eq!(markdown_rewrite("/blog/hello.md", None).as_deref(), Some("/blog-md/hello"));
    assert_eq!(markdown_rewrite("/blog/hello.md", Some("x=1")).as_deref(), Some("/blog-md/hello?x=1"));
    assert_eq!(markdown_rewrite("/blog/.md", None), None);
    assert_eq!(markdown_rewrite("/blog/a/b.md", None), None);
    assert_eq!(markdown_rewrite("/blog/hello", None), None);
    assert_eq!(markdown_rewrite("/about.md", None), None);
}

#[test]
fn page_helpers() {
    assert_eq!(escape_json_for_script("{\"a\":\"</script>\"}"), "{\"a\":\"\\u003c/script>\"}");
    assert_eq!(nav_link_class("/blog", "/blog"), "nav-links__element nav-links__element--active");
    assert_eq!(nav_link_class("/about", "/blog"), "nav-links__element");
    assert!(!shows_nav_bar("/"));
    assert!(shows_nav_bar("/blog"));
    assert_eq!(post_path("hello"), "/blog/hello");
    assert_eq!(site_pages().len(), 5);
}
