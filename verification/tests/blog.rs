use kenespartadev::dates::published_date;
use kenespartadev::dto::{BlogPostDTO, BlogPostSummaryDTO};
use kenespartadev::errors::{ConfigurationError, DomainError, RepositoryError, UseCaseError};
use kenespartadev::configuration::Configuration;
use kenespartadev::kernel::PostUuid;
use kenespartadev::model::{BlogPost, BlogPostSummary, StoredPost};
use kenespartadev::status::PostStatus;
use kenespartadev::telemetry::percent_decode;
use kenespartadev::use_cases::{
    lookup_or_not_found, post_by_id, post_markdown, prepare_upsert, pruned_slugs,
    published_listing, upsert_record, visible_post, UpsertPostCommand,
};

/// The in-memory lookup the use-case tests run against: posts verbatim,
/// drafts included, as the real adapter's `find_by_slug` returns them.
fn find_by_slug(posts: &[BlogPost], slug: &str) -> Result<Option<BlogPost>, RepositoryError> {
    Ok(posts.iter().find(|post| post.slug == slug).cloned())
}

fn post(slug: &str, status: PostStatus) -> BlogPost {
    let mut post = BlogPost::new(
        "Title".to_owned(),
        slug.to_owned(),
        "<p>body</p>".to_owned(),
        "# body".to_owned(),
        "summary".to_owned(),
        "ken".to_owned(),
        Vec::new(),
    );
    post.status = status;
    post
}

#[test]
fn decodes_cloudfront_encoded_values() {
    assert_eq!(percent_decode("S%C3%A3o%20Paulo"), "São Paulo");
    assert_eq!(percent_decode("Lima"), "Lima");
    assert_eq!(percent_decode("50%"), "50%");
    assert_eq!(percent_decode("bad%2"), "bad%2");
}

#[test]
fn get_by_slug_hides_drafts() {
    let posts = vec![post("secret", PostStatus::Draft)];
    let result = visible_post(find_by_slug(&posts, "secret")).expect("use case ok");
    assert!(result.is_none(), "a draft slug must read as not found");
}

#[test]
fn get_by_slug_returns_published() {
    let posts = vec![post("hello", PostStatus::Published)];
    let result = visible_post(find_by_slug(&posts, "hello")).expect("use case ok");
    assert_eq!(result.map(|dto| dto.slug).as_deref(), Some("hello"));
}

#[test]
fn get_by_slug_missing_is_none() {
    let posts = vec![post("hello", PostStatus::Published)];
    let result = visible_post(find_by_slug(&posts, "nope")).expect("use case ok");
    assert!(result.is_none());
}

#[test]
fn percent_decode_keeps_malformed_escapes() {
    assert_eq!(percent_decode("%zz1"), "%zz1");
    assert_eq!(percent_decode("%%41"), "%%41");
    assert_eq!(percent_decode("%41%42"), "AB");
    assert_eq!(percent_decode("%"), "%");
    assert_eq!(percent_decode("%ff"), "\u{FFFD}");
}

#[test]
fn status_names() {
    assert_eq!(PostStatus::Draft.as_str(), "draft");
    assert_eq!(PostStatus::Published.as_str(), "published");
    assert_eq!(PostStatus::Published.to_string(), "published");
    assert_eq!(PostStatus::from_stored("published"), PostStatus::Published);
    assert_eq!(PostStatus::from_stored("draft"), PostStatus::Draft);
    assert_eq!(PostStatus::from_stored("archived"), PostStatus::Draft);
}

#[test]
fn new_posts_are_drafts_with_fresh_ids() {
    let a = post("a", PostStatus::Draft);
    let b = BlogPost::new(
        "T".into(),
        "b".into(),
        "c".into(),
        "m".into(),
        "s".into(),
        "x".into(),
        vec!["rust".into()],
    );
    assert_eq!(b.status, PostStatus::Draft);
    assert_eq!(b.published_at, None);
    assert_eq!(b.created_at, b.updated_at);
    assert_eq!(b.tags, vec!["rust".to_string()]);
    assert_eq!(b.post_id.len(), 36);
    assert_ne!(a.post_id, b.post_id);
}

#[test]
fn post_ids_are_hyphenated_v4_uuids() {
    let id = PostUuid::new();
    let chars: Vec<char> = id.chars().collect();
    assert_eq!(chars.len(), 36);
    for (i, c) in chars.iter().enumerate() {
        if i == 8 || i == 13 || i == 18 || i == 23 {
            assert_eq!(*c, '-');
        } else {
            assert!(c.is_ascii_hexdigit() && !c.is_ascii_uppercase());
        }
    }
    assert_eq!(chars[14], '4');
    assert!("89ab".contains(chars[19]));
}

#[test]
fn publishing_sets_dates() {
    let mut p = post("p", PostStatus::Draft);
    p.publish_at(1_700_000_000);
    assert_eq!(p.status, PostStatus::Published);
    assert_eq!(p.published_at, Some(1_700_000_000));
    assert_eq!(p.updated_at, 1_700_000_000);
    let mut q = post("q", PostStatus::Draft);
    q.publish();
    assert_eq!(q.published_at, Some(q.updated_at));
}

#[test]
fn summaries_and_dtos_carry_the_fields() {
    let mut p = post("hello", PostStatus::Published);
    p.published_at = Some(10);
    p.created_at = 5;
    p.updated_at = 7;
    let summary = BlogPostSummary::from(p.clone());
    assert_eq!(summary.slug, "hello");
    assert_eq!(summary.updated_at, 7);
    let dto = BlogPostSummaryDTO::from(summary);
    assert_eq!(dto.published_at, Some(10));
    assert_eq!(dto.created_at, 5);
    let full = BlogPostDTO::from(p);
    assert_eq!(full.status, "published");
    assert_eq!(full.content, "<p>body</p>");
}

#[test]
fn listing_maps_every_post_in_order() {
    let posts = vec![post("a", PostStatus::Published), post("b", PostStatus::Published)];
    let entries = published_listing(Ok(posts)).expect("ok");
    let slugs: Vec<String> = entries.into_iter().map(|e| e.slug).collect();
    assert_eq!(slugs, vec!["a".to_string(), "b".to_string()]);
    let failed = published_listing(Err(RepositoryError::Infrastructure("down".into())));
    match failed {
        Err(UseCaseError::Repository(RepositoryError::Infrastructure(m))) => assert_eq!(m, "down"),
        _ => panic!("expected a repository error"),
    }
}

#[test]
fn lookups_by_id_and_markdown() {
    assert!(matches!(post_by_id(Ok(None)), Err(UseCaseError::NotFound)));
    let dto = post_by_id(Ok(Some(post("x", PostStatus::Draft)))).expect("found");
    assert_eq!(dto.status, "draft");
    let md = post_markdown(Ok(Some(post("x", PostStatus::Draft)))).expect("ok").expect("some");
    assert_eq!(md.content_md, "# body");
    assert_eq!(md.status, "draft");
    assert!(post_markdown(Ok(None)).expect("ok").is_none());
    assert_eq!(pruned_slugs(Ok(vec!["gone".into()])).expect("ok"), vec!["gone".to_string()]);
    match lookup_or_not_found(Ok(None)) {
        Err(m) => assert_eq!(m, "Post not found"),
        Ok(_) => panic!("expected not found"),
    }
}

fn command(published: bool) -> UpsertPostCommand {
    UpsertPostCommand {
        title: "Hello".into(),
        slug: "hello".into(),
        content_html: "<p>hi</p>".into(),
        content_md: "hi".into(),
        summary: "s".into(),
        author: "Ken Esparta".into(),
        tags: vec!["a".into()],
        published,
        date: 1_000,
    }
}

#[test]
fn upsert_records_follow_the_command() {
    let published = upsert_record(command(true), "id".into(), 2_000);
    assert_eq!(published.status, PostStatus::Published);
    assert_eq!(published.published_at, Some(1_000));
    assert_eq!(published.created_at, 1_000);
    assert_eq!(published.updated_at, 2_000);
    assert_eq!(published.content, "<p>hi</p>");
    assert_eq!(published.content_md, "hi");
    let draft = upsert_record(command(false), "id".into(), 2_000);
    assert_eq!(draft.status, PostStatus::Draft);
    assert_eq!(draft.published_at, None);
    let fresh = prepare_upsert(command(true));
    assert_eq!(fresh.post_id.len(), 36);
    assert_eq!(fresh.published_at, Some(1_000));
}

#[test]
fn stored_rows_map_their_status() {
    let row = StoredPost {
        post_id: "id".into(),
        title: "t".into(),
        slug: "s".into(),
        content: "c".into(),
        content_md: "m".into(),
        summary: "u".into(),
        author: "a".into(),
        tags: vec![],
        status: "published".into(),
        created_at: 1,
        updated_at: 2,
        published_at: Some(3),
    };
    let post = BlogPost::from_stored(row);
    assert_eq!(post.status, PostStatus::Published);
    assert_eq!(post.published_at, Some(3));
}

#[test]
fn configuration_requires_the_database_url() {
    let ok = Configuration::from_env_value(Some("postgres://x".into())).expect("ok");
    assert_eq!(ok.database_url, "postgres://x");
    match Configuration::from_env_value(None) {
        Err(ConfigurationError::MissingVar(v)) => assert_eq!(v, "DATABASE_URL"),
        Ok(_) => panic!("expected an error"),
    }
}

#[test]
fn error_messages() {
    assert_eq!(
        RepositoryError::Infrastructure("boom".into()).message(),
        "infrastructure error: boom"
    );
    assert_eq!(UseCaseError::NotFound.message(), "post not found");
    assert_eq!(
        UseCaseError::Repository(RepositoryError::Infrastructure("x".into())).message(),
        "infrastructure error: x"
    );
    assert_eq!(DomainError::Invariant("x".into()).message(), "invariant violated: x");
    assert_eq!(DomainError::NotFound("x".into()).message(), "entity not found: x");
    assert_eq!(
        DomainError::InvalidState("x".into()).message(),
        "operation not allowed in the current state: x"
    );
    assert!(ConfigurationError::MissingVar("DATABASE_URL".into())
        .message()
        .starts_with("missing required env var DATABASE_URL. Locally:"));
    let converted: UseCaseError = RepositoryError::Infrastructure("y".into()).into();
    assert!(matches!(converted, UseCaseError::Repository(_)));
}

#[test]
fn dates_render_through_chrono() {
    assert_eq!(published_date(Some(1_784_592_000)), "July 21, 2026");
    assert_eq!(published_date(Some(0)), "January 01, 1970");
    assert_eq!(published_date(None), "draft");
    assert_eq!(published_date(Some(i64::MAX)), "draft");
}
