use kenespartadev::dates::{optional_rfc3339, FIRST_UTC_SECOND, LAST_UTC_SECOND};
use kenespartadev::dynamo::{item_to_blog_post, ItemValue};
use kenespartadev::errors::{RepositoryError, UseCaseError};
use kenespartadev::ingest::{parse_ingest_args, plan_ingest, IngestPlan};
use kenespartadev::kernel::PostUuid;
use kenespartadev::model::BlogPost;
use kenespartadev::postgres::{lookup_key, upsert_row, utc_seconds, Lookup};
use kenespartadev::seo::escape_xml;
use kenespartadev::status::PostStatus;
use kenespartadev::telemetry::percent_decode;
use kenespartadev::text::one_line;
use kenespartadev::ui::escape_json_for_script;
use kenespartadev::use_cases::upsert_outcome;

fn site_item(created_at: &str) -> Vec<(String, ItemValue)> {
    vec![
        ("post_id".into(), ItemValue::S("p1".into())),
        ("title".into(), ItemValue::S("T".into())),
        ("slug".into(), ItemValue::S("s".into())),
        ("content".into(), ItemValue::S("c".into())),
        ("summary".into(), ItemValue::S("m".into())),
        ("author".into(), ItemValue::S("a".into())),
        ("status".into(), ItemValue::S("draft".into())),
        ("created_at".into(), ItemValue::N(created_at.into())),
        ("updated_at".into(), ItemValue::N("1".into())),
    ]
}

fn message(err: RepositoryError) -> String {
    match err {
        RepositoryError::Infrastructure(m) => m,
    }
}

fn post_with(post_id: &str, created_at: i64, published_at: Option<i64>) -> BlogPost {
    let mut post = BlogPost::new_with(
        post_id.into(),
        created_at,
        "T".into(),
        "s".into(),
        "<p>c</p>".into(),
        "c".into(),
        "sum".into(),
        "a".into(),
        vec![],
    );
    if published_at.is_some() {
        post.status = PostStatus::Published;
        post.published_at = published_at;
    }
    post
}

#[test]
fn site_reader_rejects_a_non_integer_timestamp() {
    let err = item_to_blog_post(&site_item("abc")).unwrap_err();
    assert_eq!(err, "Missing or invalid created_at");
}

#[test]
fn site_reader_names_missing_attributes() {
    let mut item = site_item("5");
    item.retain(|(k, _)| k != "post_id");
    assert_eq!(item_to_blog_post(&item).unwrap_err(), "Missing post_id");
    let mut item = site_item("5");
    item.retain(|(k, _)| k != "status");
    assert_eq!(item_to_blog_post(&item).unwrap_err(), "Missing status");
    let mut item = site_item("5");
    item.retain(|(k, _)| k != "updated_at");
    assert_eq!(item_to_blog_post(&item).unwrap_err(), "Missing or invalid updated_at");
}

#[test]
fn site_reader_reads_a_complete_item() {
    let post = item_to_blog_post(&site_item("-7")).expect("complete");
    assert_eq!(post.post_id, "p1");
    assert_eq!(post.status, PostStatus::Draft);
    assert_eq!(post.created_at, -7);
    assert_eq!(post.updated_at, 1);
    assert_eq!(post.published_at, None);
    assert!(post.tags.is_empty());
}

#[test]
fn lookups_by_malformed_ids_are_not_found() {
    assert_eq!(lookup_key("not-a-uuid"), Lookup::NotFound);
    assert_eq!(lookup_key(""), Lookup::NotFound);
    assert_eq!(
        lookup_key("67e55044-10b1-426f-9247-bb680e5fe0c8"),
        Lookup::Query(0x67e5504410b1426f9247bb680e5fe0c8)
    );
}

#[test]
fn fresh_ids_are_accepted_as_keys() {
    let id = PostUuid::new();
    assert!(matches!(lookup_key(&id), Lookup::Query(_)));
    assert!(upsert_row(&post_with(&id, 1_700_000_000, Some(1_700_000_000))).is_ok());
    assert_eq!(
        lookup_key("67E55044-10B1-426F-9247-BB680E5FE0C8"),
        Lookup::Query(0x67e5504410b1426f9247bb680e5fe0c8)
    );
}

#[test]
fn timestamps_outside_chronos_range_are_refused() {
    assert_eq!(utc_seconds(0).ok(), Some(0));
    assert_eq!(utc_seconds(LAST_UTC_SECOND).ok(), Some(LAST_UTC_SECOND));
    assert_eq!(utc_seconds(FIRST_UTC_SECOND).ok(), Some(FIRST_UTC_SECOND));
    assert_eq!(
        message(utc_seconds(LAST_UTC_SECOND + 1).unwrap_err()),
        "timestamp out of range: 8210266876800"
    );
    assert_eq!(
        message(utc_seconds(FIRST_UTC_SECOND - 1).unwrap_err()),
        "timestamp out of range: -8334601228801"
    );
    assert!(utc_seconds(i64::MAX).is_err());
    assert!(optional_rfc3339(Some(LAST_UTC_SECOND)).is_some());
    assert_eq!(optional_rfc3339(Some(LAST_UTC_SECOND + 1)), None);
    assert_eq!(optional_rfc3339(Some(FIRST_UTC_SECOND - 1)), None);
}

#[test]
fn upsert_rows_check_the_id_then_the_timestamps() {
    let id = "67e55044-10b1-426f-9247-bb680e5fe0c8";
    let row = upsert_row(&post_with(id, 10, Some(20))).expect("row");
    assert_eq!(row.post_id, 0x67e5504410b1426f9247bb680e5fe0c8);
    assert_eq!(row.created_at, 10);
    assert_eq!(row.updated_at, 10);
    assert_eq!(row.published_at, Some(20));
    let bad_id = message(upsert_row(&post_with("nope", 10, None)).unwrap_err());
    assert!(bad_id.starts_with("invalid post_id: "));
    assert!(bad_id.len() > "invalid post_id: ".len());
    let both = post_with(id, i64::MIN, Some(i64::MAX));
    assert_eq!(
        message(upsert_row(&both).unwrap_err()),
        "timestamp out of range: 9223372036854775807"
    );
    let created = post_with(id, i64::MIN, Some(5));
    assert_eq!(
        message(upsert_row(&created).unwrap_err()),
        "timestamp out of range: -9223372036854775808"
    );
}

#[test]
fn an_empty_content_dir_never_prunes() {
    let args = parse_ingest_args(&["--prune".into()]).expect("ok");
    assert_eq!(plan_ingest(0, &args), IngestPlan::NothingToDo);
    assert_eq!(plan_ingest(3, &args), IngestPlan::Upsert { prune: true });
    let keep = parse_ingest_args(&[]).expect("ok");
    assert_eq!(plan_ingest(1, &keep), IngestPlan::Upsert { prune: false });
}

#[test]
fn failed_writes_pass_the_repository_error_on() {
    assert!(upsert_outcome(Ok(())).is_ok());
    match upsert_outcome(Err(RepositoryError::Infrastructure("down".into()))) {
        Err(UseCaseError::Repository(RepositoryError::Infrastructure(m))) => assert_eq!(m, "down"),
        _ => panic!("expected the repository error"),
    }
}

#[test]
fn full_percent_encoding_decodes_back() {
    assert_eq!(percent_decode("%53%C3%A3%6F%20%50aulo"), "São Paulo");
    assert_eq!(percent_decode("%c3%a3"), "ã");
    assert_eq!(percent_decode("%C3%a3%6f"), "ão");
    assert_eq!(percent_decode("50%"), "50%");
    assert_eq!(percent_decode("bad%2"), "bad%2");
    assert_eq!(percent_decode("%zz"), "%zz");
}

#[test]
fn folding_onto_one_line_is_idempotent() {
    let once = one_line("  first line\n\n\tsecond   line  ");
    assert_eq!(once, "first line second line");
    assert!(!once.contains("  "));
    assert_eq!(one_line(&once), once);
    assert_eq!(one_line(" \n\t "), "");
}

#[test]
fn xml_escapes_decode_back() {
    let raw = "Tom & \"Jerry\" <3 &amp;";
    let escaped = escape_xml(raw);
    assert_eq!(escaped, "Tom &amp; &quot;Jerry&quot; &lt;3 &amp;amp;");
    let back = escaped
        .replace("&lt;", "<")
        .replace("&gt;", ">")
        .replace("&quot;", "\"")
        .replace("&amp;", "&");
    assert_eq!(back, raw);
    assert_eq!(escape_xml("plain text"), "plain text");
}

#[test]
fn script_safe_json_parses_to_the_same_value() {
    let mut map = serde_json::Map::new();
    map.insert(
        "headline".to_string(),
        serde_json::Value::String("a </script><b> & \"q\" São".to_string()),
    );
    map.insert(
        "keywords".to_string(),
        serde_json::Value::Array(vec![serde_json::Value::String("<x>".to_string())]),
    );
    let value = serde_json::Value::Object(map);
    let safe = escape_json_for_script(&value.to_string());
    assert!(!safe.contains('<'));
    let back: serde_json::Value = serde_json::from_str(&safe).expect("valid JSON");
    assert_eq!(back, value);
}

#[test]
fn post_instants_as_chrono_holds_them() {
    let mut post = post_with("id", 42, Some(7));
    assert_eq!(post.created_at_datetime(), 42);
    assert_eq!(post.updated_at_datetime(), 42);
    assert_eq!(post.published_at_datetime(), Some(7));
    post.created_at = i64::MAX;
    post.updated_at = i64::MIN;
    post.published_at = Some(LAST_UTC_SECOND + 1);
    assert_eq!(post.created_at_datetime(), 0);
    assert_eq!(post.updated_at_datetime(), 0);
    assert_eq!(post.published_at_datetime(), None);
    post.published_at = None;
    assert_eq!(post.published_at_datetime(), None);
}
