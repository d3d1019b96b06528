use kenespartadev::listing::newest_first;
use kenespartadev::post_index::{full_post, markdown_content_html, PostMeta};
use kenespartadev::dynamo::{posts_from_items, ItemValue, ListEntry};
use kenespartadev::errors::RepositoryError;
use kenespartadev::ingest::{
    default_author, parse_ingest_args, post_command, split_frontmatter, Frontmatter, Status,
};
use kenespartadev::model::BlogPost;
use kenespartadev::status::PostStatus;
use kenespartadev::telemetry::{client_ip, header_value, is_asset_request};

#[test]
fn client_ip_prefers_the_edge_header() {
    assert_eq!(client_ip(Some("1.2.3.4"), Some("5.6.7.8")), "1.2.3.4");
    assert_eq!(client_ip(None, Some(" 5.6.7.8 , 9.9.9.9")), "5.6.7.8");
    assert_eq!(client_ip(None, None), "-");
    assert_eq!(header_value(Some("S%C3%A3o%20Paulo")), "São Paulo");
    assert_eq!(header_value(None), "-");
}

#[test]
fn asset_requests_are_not_logged() {
    assert!(is_asset_request("/pkg/app.wasm"));
    assert!(is_asset_request("/favicon.ico"));
    assert!(!is_asset_request("/blog"));
}

#[test]
fn frontmatter_is_split_from_the_body() {
    let (front, body) = split_frontmatter("+++\ntitle = \"x\"\n+++\n\n# Body\n").expect("split");
    assert_eq!(front, "\ntitle = \"x\"");
    assert_eq!(body, "# Body\n");
    assert_eq!(
        split_frontmatter("title").unwrap_err(),
        "file must start with a `+++` frontmatter fence"
    );
    assert_eq!(split_frontmatter("+++\ntitle").unwrap_err(), "unclosed `+++` frontmatter fence");
}

fn frontmatter(date: &str, slug: Option<&str>) -> Frontmatter {
    Frontmatter {
        title: "Hello".into(),
        summary: "S".into(),
        date: date.into(),
        author: default_author(),
        tags: vec!["rust".into()],
        status: Status::Published,
        slug: slug.map(String::from),
    }
}

#[test]
fn post_files_become_commands() {
    let cmd = post_command(frontmatter("1970-01-02T00:00:00Z", None), "*hi*", Some("hello".into()))
        .expect("command");
    assert_eq!(cmd.slug, "hello");
    assert_eq!(cmd.date, 86_400);
    assert!(cmd.published);
    assert_eq!(cmd.content_md, "*hi*");
    assert_eq!(cmd.content_html, "<p><em>hi</em></p>\n");
    assert_eq!(cmd.author, "Ken Esparta");
    let named = post_command(frontmatter("1970-01-01T00:00:00Z", Some("own")), "x", None).expect("ok");
    assert_eq!(named.slug, "own");
    let bad_date = post_command(frontmatter("yesterday", None), "x", Some("s".into())).unwrap_err();
    assert!(bad_date.starts_with("invalid `date` (want RFC 3339): "));
    let no_slug = post_command(frontmatter("1970-01-01T00:00:00Z", None), "x", None).unwrap_err();
    assert_eq!(no_slug, "file name is not valid UTF-8");
}

#[test]
fn ingest_arguments() {
    let args = parse_ingest_args(&[]).expect("ok");
    assert_eq!(args.dir, "content/posts");
    assert!(!args.prune);
    let args = parse_ingest_args(&["posts".into(), "--prune".into()]).expect("ok");
    assert_eq!(args.dir, "posts");
    assert!(args.prune);
    let err = parse_ingest_args(&["--force".into(), "x".into()]).unwrap_err();
    assert_eq!(err, "unknown flag `--force` (usage: ingest [content-dir] [--prune])");
}

fn sample() -> BlogPost {
    let mut post = BlogPost::new_with(
        "id-1".into(),
        -5,
        "T".into(),
        "s".into(),
        "<p>c</p>".into(),
        "c".into(),
        "sum".into(),
        "a".into(),
        vec!["x".into(), "y".into()],
    );
    post.status = PostStatus::Published;
    post.published_at = Some(1_700_000_000);
    post
}

#[test]
fn items_round_trip() {
    let post = sample();
    let item = post.to_item();
    assert_eq!(item.len(), 11);
    let back = BlogPost::from_item(&item).expect("complete");
    assert_eq!(back.post_id, post.post_id);
    assert_eq!(back.tags, post.tags);
    assert_eq!(back.status, PostStatus::Published);
    assert_eq!(back.created_at, -5);
    assert_eq!(back.published_at, Some(1_700_000_000));
    assert_eq!(back.content_md, "");
}

#[test]
fn incomplete_items_name_the_missing_attribute() {
    let mut item = sample().to_item();
    item.retain(|(k, _)| k != "title");
    match BlogPost::from_item(&item) {
        Err(RepositoryError::Infrastructure(m)) => assert_eq!(m, "missing title"),
        Ok(_) => panic!("expected an error"),
    }
    let mut item = sample().to_item();
    for entry in item.iter_mut() {
        if entry.0 == "created_at" {
            entry.1 = ItemValue::N("12x".into());
        }
    }
    let all = vec![sample().to_item(), item];
    match posts_from_items(&all) {
        Err(RepositoryError::Infrastructure(m)) => assert_eq!(m, "missing created_at"),
        Ok(_) => panic!("expected an error"),
    }
    let mixed = vec![(
        "tags".to_string(),
        ItemValue::L(vec![ListEntry::S("a".into()), ListEntry::Other]),
    )];
    assert!(BlogPost::from_item(&mixed).is_err());
    let listed = posts_from_items(&[sample().to_item(), sample().to_item()]).expect("ok");
    assert_eq!(listed.len(), 2);
}

#[test]
fn listing_is_newest_first_and_stable() {
    let mut posts = Vec::new();
    for (slug, created) in [("a", 10), ("b", 30), ("c", 10), ("d", 20), ("e", 30)] {
        let mut p = sample();
        p.slug = slug.to_string();
        p.created_at = created;
        posts.push(p);
    }
    let sorted = newest_first(posts);
    let order: Vec<&str> = sorted.iter().map(|p| p.slug.as_str()).collect();
    assert_eq!(order, vec!["b", "e", "d", "a", "c"]);
    assert!(newest_first(Vec::new()).is_empty());
}

#[test]
fn stored_status_names_read_back() {
    for status in [PostStatus::Draft, PostStatus::Published] {
        assert_eq!(PostStatus::from_stored(status.as_str()), status);
    }
}

#[test]
fn static_index_posts_render_commonmark() {
    assert_eq!(markdown_content_html("# Hi"), "<h1>Hi</h1>\n");
    let meta = PostMeta {
        id: "1".into(),
        slug: "hi".into(),
        background_image: "bg.webp".into(),
        title: "Hi".into(),
        author: "Ken".into(),
        tags: vec![],
        date: "2024-01-01".into(),
    };
    let post = full_post(meta, "~~x~~");
    assert_eq!(post.meta.slug, "hi");
    // Strikethrough is not enabled for the static index: the text stays as written.
    assert_eq!(post.html_content, "<p>~~x~~</p>\n");
}
