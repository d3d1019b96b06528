//! The DynamoDB item form of a post: attribute maps to and from the model.
//! Numbers travel as decimal text, as DynamoDB stores them.

use vstd::prelude::*;
use vstd::string::StringExecFns;

use crate::errors::RepositoryError;
use crate::model::BlogPost;
use crate::status::PostStatus;
use crate::text::same_text;

verus! {

/// The attribute values an item of the posts table holds.
#[derive(Debug, Clone)]
pub enum ItemValue {
    /// A string.
    S(String),
    /// A number, as its decimal text.
    N(String),
    /// A list.
    L(Vec<ListEntry>),
    /// Any other kind of attribute.
    Other,
}

/// An element of a list attribute; only strings matter to the posts table.
#[derive(Debug, Clone)]
pub enum ListEntry {
    /// A string.
    S(String),
    /// Any other kind of value.
    Other,
}

/// An item: attribute names with their values, each name at most once.
pub type Item = Vec<(String, ItemValue)>;

/// The value stored under `key`.
pub open spec fn item_get(item: Seq<(String, ItemValue)>, key: Seq<char>) -> Option<ItemValue>
    decreases item.len(),
{
    if item.len() == 0 {
        None
    } else if item[0].0@ == key {
        Some(item[0].1)
    } else {
        item_get(item.skip(1), key)
    }
}

/// Whether `c` is an ASCII decimal digit.
pub open spec fn is_digit(c: char) -> bool {
    '0' <= c <= '9'
}

/// The value of the decimal digits `s`.
pub open spec fn digits_value(s: Seq<char>) -> int
    decreases s.len(),
{
    if s.len() == 0 {
        0
    } else {
        digits_value(s.drop_last()) * 10 + (s.last() as int - '0' as int)
    }
}

/// The `i64` a decimal text spells, as `i64::from_str` reads it: an optional
/// `+` or `-` followed by at least one ASCII digit and nothing else, within
/// the range of `i64`.
pub open spec fn decimal_i64(s: Seq<char>) -> Option<i64> {
    let negative = s.len() > 0 && s[0] == '-';
    let digits = if s.len() > 0 && (s[0] == '-' || s[0] == '+') {
        s.skip(1)
    } else {
        s
    };
    let magnitude = digits_value(digits);
    let value = if negative {
        -magnitude
    } else {
        magnitude
    };
    if digits.len() > 0 && (forall|i: int| 0 <= i < digits.len() ==> is_digit(#[trigger] digits[i]))
        && i64::MIN <= value <= i64::MAX {
        Some(value as i64)
    } else {
        None
    }
}

/// The decimal digits of `m`, without leading zeros.
pub open spec fn digits_of(m: nat) -> Seq<char>
    decreases m,
{
    if m < 10 {
        seq![(m + '0' as int) as char]
    } else {
        digits_of(m / 10).push(((m % 10) + '0' as int) as char)
    }
}

/// The decimal text of `n`, as integers display: a `-` for negatives.
pub open spec fn decimal_text(n: i64) -> Seq<char> {
    if n < 0 {
        seq!['-'] + digits_of((-n) as nat)
    } else {
        digits_of(n as nat)
    }
}

/// Calls `str::parse::<i64>` (`i64::from_str`), which accepts an optional
/// sign and decimal digits within the range of `i64`.
#[verifier::external_body]
fn parse_i64(s: &str) -> (res: Option<i64>)
    ensures
        res == decimal_i64(s@),
{
    s.parse::<i64>().ok()
}

/// Calls `i64::to_string`, which writes the number in decimal.
#[verifier::external_body]
pub(crate) fn i64_text(n: i64) -> (res: String)
    ensures
        res@ == decimal_text(n),
{
    n.to_string()
}

/// The text stored under `key`, if it is a string.
pub open spec fn text_field(item: Seq<(String, ItemValue)>, key: Seq<char>) -> Option<Seq<char>> {
    match item_get(item, key) {
        Some(ItemValue::S(s)) => Some(s@),
        _ => None,
    }
}

/// The number stored under `key`, if it is a number that fits an `i64`.
pub open spec fn number_field(item: Seq<(String, ItemValue)>, key: Seq<char>) -> Option<i64> {
    match item_get(item, key) {
        Some(ItemValue::N(n)) => decimal_i64(n@),
        _ => None,
    }
}

/// The strings of a list, in order; other values are skipped.
pub open spec fn strings_in(list: Seq<ListEntry>) -> Seq<Seq<char>>
    decreases list.len(),
{
    if list.len() == 0 {
        Seq::empty()
    } else {
        let rest = strings_in(list.drop_last());
        match list.last() {
            ListEntry::S(s) => rest.push(s@),
            ListEntry::Other => rest,
        }
    }
}

/// The tags of an item: the strings of its `tags` list, or none.
pub open spec fn tags_field(item: Seq<(String, ItemValue)>) -> Seq<Seq<char>> {
    match item_get(item, "tags"@) {
        Some(ItemValue::L(list)) => strings_in(list@),
        _ => Seq::empty(),
    }
}

/// The first attribute a post needs that the item lacks (or holds with the
/// wrong kind or an unreadable number), in the order they are read.
pub open spec fn missing_field(item: Seq<(String, ItemValue)>) -> Option<Seq<char>> {
    if text_field(item, "post_id"@) is None {
        Some("post_id"@)
    } else if text_field(item, "title"@) is None {
        Some("title"@)
    } else if text_field(item, "slug"@) is None {
        Some("slug"@)
    } else if text_field(item, "content"@) is None {
        Some("content"@)
    } else if text_field(item, "summary"@) is None {
        Some("summary"@)
    } else if text_field(item, "author"@) is None {
        Some("author"@)
    } else if text_field(item, "status"@) is None {
        Some("status"@)
    } else if number_field(item, "created_at"@) is None {
        Some("created_at"@)
    } else if number_field(item, "updated_at"@) is None {
        Some("updated_at"@)
    } else {
        None
    }
}

/// The texts of a list of strings.
pub open spec fn texts(v: Seq<String>) -> Seq<Seq<char>> {
    v.map_values(|s: String| s@)
}

/// Whether `post` is the post an item describes (which lacks no attribute).
/// Items carry no Markdown source: the post's is empty.
pub open spec fn post_of_item(post: BlogPost, item: Seq<(String, ItemValue)>) -> bool {
    &&& Some(post.post_id@) == text_field(item, "post_id"@)
    &&& Some(post.title@) == text_field(item, "title"@)
    &&& Some(post.slug@) == text_field(item, "slug"@)
    &&& Some(post.content@) == text_field(item, "content"@)
    &&& post.content_md@ == Seq::<char>::empty()
    &&& Some(post.summary@) == text_field(item, "summary"@)
    &&& Some(post.author@) == text_field(item, "author"@)
    &&& texts(post.tags@) == tags_field(item)
    &&& post.status == PostStatus::parse(text_field(item, "status"@).unwrap())
    &&& Some(post.created_at) == number_field(item, "created_at"@)
    &&& Some(post.updated_at) == number_field(item, "updated_at"@)
    &&& post.published_at == number_field(item, "published_at"@)
}

/// The value stored under `key`.
pub fn item_lookup<'a>(item: &'a [(String, ItemValue)], key: &str) -> (res: Option<&'a ItemValue>)
    ensures
        match res {
            Some(v) => item_get(item@, key@) == Some(*v),
            None => item_get(item@, key@) is None,
        },
{
    let mut i: usize = 0;
    assert(item@.skip(0) =~= item@);
    while i < item.len()
        invariant
            i <= item@.len(),
            item_get(item@, key@) == item_get(item@.skip(i as int), key@),
        decreases item@.len() - i,
    {
        assert(item@.skip(i as int)[0] == item@[i as int]);
        assert(item@.skip(i as int).skip(1) =~= item@.skip(i + 1));
        if same_text(item[i].0.as_str(), key) {
            return Some(&item[i].1);
        }
        i = i + 1;
    }
    None
}

fn text_attribute(item: &[(String, ItemValue)], key: &str) -> (res: Option<String>)
    ensures
        match res {
            Some(s) => text_field(item@, key@) == Some(s@),
            None => text_field(item@, key@) is None,
        },
{
    match item_lookup(item, key) {
        Some(ItemValue::S(s)) => Some(s.clone()),
        _ => None,
    }
}

fn number_attribute(item: &[(String, ItemValue)], key: &str) -> (res: Option<i64>)
    ensures
        res == number_field(item@, key@),
{
    match item_lookup(item, key) {
        Some(ItemValue::N(n)) => parse_i64(n.as_str()),
        _ => None,
    }
}

fn tags_attribute(item: &[(String, ItemValue)]) -> (res: Vec<String>)
    ensures
        texts(res@) == tags_field(item@),
{
    let mut res: Vec<String> = Vec::new();
    match item_lookup(item, "tags") {
        Some(ItemValue::L(list)) => {
            let mut i: usize = 0;
            while i < list.len()
                invariant
                    i <= list@.len(),
                    texts(res@) == strings_in(list@.take(i as int)),
                decreases list@.len() - i,
            {
                assert(list@.take(i + 1).drop_last() =~= list@.take(i as int));
                match &list[i] {
                    ListEntry::S(s) => {
                        res.push(s.clone());
                        assert(texts(res@) =~= strings_in(list@.take(i + 1)));
                    },
                    _ => {},
                }
                i = i + 1;
            }
            assert(list@.take(list@.len() as int) =~= list@);
        },
        _ => {
            assert(texts(res@) =~= Seq::<Seq<char>>::empty());
        },
    }
    res
}

fn missing(field: &str) -> (res: RepositoryError)
    ensures
        res matches RepositoryError::Infrastructure(m) && m@ == "missing "@ + field@,
{
    let mut m = String::from_str("missing ");
    m.append(field);
    RepositoryError::Infrastructure(m)
}

/// Reads the attributes of a post in order; on the first one the item
/// lacks, gives its name.
fn read_item(item: &[(String, ItemValue)]) -> (res: Result<BlogPost, &'static str>)
    ensures
        match missing_field(item@) {
            Some(f) => res matches Err(name) && name@ == f,
            None => res matches Ok(post) && post_of_item(post, item@),
        },
{
    let post_id = match text_attribute(item, "post_id") {
        Some(s) => s,
        None => return Err("post_id"),
    };
    let title = match text_attribute(item, "title") {
        Some(s) => s,
        None => return Err("title"),
    };
    let slug = match text_attribute(item, "slug") {
        Some(s) => s,
        None => return Err("slug"),
    };
    let content = match text_attribute(item, "content") {
        Some(s) => s,
        None => return Err("content"),
    };
    let summary = match text_attribute(item, "summary") {
        Some(s) => s,
        None => return Err("summary"),
    };
    let author = match text_attribute(item, "author") {
        Some(s) => s,
        None => return Err("author"),
    };
    let tags = tags_attribute(item);
    let status_text = match text_attribute(item, "status") {
        Some(s) => s,
        None => return Err("status"),
    };
    let status = PostStatus::from_stored(status_text.as_str());
    let created_at = match number_attribute(item, "created_at") {
        Some(n) => n,
        None => return Err("created_at"),
    };
    let updated_at = match number_attribute(item, "updated_at") {
        Some(n) => n,
        None => return Err("updated_at"),
    };
    let published_at = number_attribute(item, "published_at");
    Ok(
        BlogPost {
            post_id,
            title,
            slug,
            content,
            content_md: String::new(),
            summary,
            author,
            tags,
            status,
            created_at,
            updated_at,
            published_at,
        },
    )
}

impl BlogPost {
    /// The post an item describes, or which attribute it lacks.
    pub fn from_item(item: &[(String, ItemValue)]) -> (res: Result<BlogPost, RepositoryError>)
        ensures
            match missing_field(item@) {
                Some(f) => res matches Err(RepositoryError::Infrastructure(m)) && m@ == "missing "@
                    + f,
                None => res matches Ok(post) && post_of_item(post, item@),
            },
            match res {
                Ok(post) => {
                    &&& Some(post.post_id@) == text_field(item@, "post_id"@)
                    &&& Some(post.title@) == text_field(item@, "title"@)
                    &&& Some(post.slug@) == text_field(item@, "slug"@)
                    &&& Some(post.content@) == text_field(item@, "content"@)
                    &&& Some(post.summary@) == text_field(item@, "summary"@)
                    &&& Some(post.author@) == text_field(item@, "author"@)
                    &&& texts(post.tags@) == tags_field(item@)
                    &&& post.status == if text_field(item@, "status"@) == Some("published"@) {
                        PostStatus::Published
                    } else {
                        PostStatus::Draft
                    }
                    &&& Some(post.created_at) == number_field(item@, "created_at"@)
                    &&& Some(post.updated_at) == number_field(item@, "updated_at"@)
                    &&& post.published_at == number_field(item@, "published_at"@)
                },
                Err(_) => true,
            },
    {
        match read_item(item) {
            Ok(post) => Ok(post),
            Err(name) => Err(missing(name)),
        }
    }
}

/// The site's answer for an item that lacks `field`: the timestamps, which
/// must also read as numbers, are "missing or invalid".
pub open spec fn site_missing_message(field: Seq<char>) -> Seq<char> {
    if field == "created_at"@ || field == "updated_at"@ {
        "Missing or invalid "@ + field
    } else {
        "Missing "@ + field
    }
}

/// The post an item describes, as the site reads it, or the message that
/// names the first attribute the item lacks.
pub fn item_to_blog_post(item: &[(String, ItemValue)]) -> (res: Result<BlogPost, String>)
    ensures
        match missing_field(item@) {
            Some(f) => res matches Err(m) && m@ == site_missing_message(f),
            None => res matches Ok(post) && post_of_item(post, item@),
        },
        match res {
            Ok(post) => {
                &&& Some(post.post_id@) == text_field(item@, "post_id"@)
                &&& Some(post.title@) == text_field(item@, "title"@)
                &&& Some(post.slug@) == text_field(item@, "slug"@)
                &&& Some(post.content@) == text_field(item@, "content"@)
                &&& Some(post.summary@) == text_field(item@, "summary"@)
                &&& Some(post.author@) == text_field(item@, "author"@)
                &&& texts(post.tags@) == tags_field(item@)
                &&& post.status == if text_field(item@, "status"@) == Some("published"@) {
                    PostStatus::Published
                } else {
                    PostStatus::Draft
                }
                &&& Some(post.created_at) == number_field(item@, "created_at"@)
                &&& Some(post.updated_at) == number_field(item@, "updated_at"@)
                &&& post.published_at == number_field(item@, "published_at"@)
            },
            Err(_) => true,
        },
{
    match read_item(item) {
        Ok(post) => Ok(post),
        Err(name) => {
            let timestamp = same_text(name, "created_at") || same_text(name, "updated_at");
            let mut m = if timestamp {
                String::from_str("Missing or invalid ")
            } else {
                String::from_str("Missing ")
            };
            m.append(name);
            Err(m)
        },
    }
}

/// The attribute names of a post item.
pub open spec fn post_item_keys() -> Seq<Seq<char>> {
    seq![
        "post_id"@,
        "created_at"@,
        "title"@,
        "slug"@,
        "content"@,
        "summary"@,
        "author"@,
        "tags"@,
        "status"@,
        "updated_at"@,
        "published_at"@,
    ]
}

/// Whether `item` is the item written for `post`: each field under its
/// name (numbers as decimal text, the status by name, the tags as a list of
/// strings, the publication date only when there is one), and no other
/// attribute. The Markdown source is not part of the item.
pub open spec fn item_describes(item: Seq<(String, ItemValue)>, post: BlogPost) -> bool {
    &&& item.len() == if post.published_at is Some {
        11int
    } else {
        10int
    }
    &&& forall|i: int| 0 <= i < item.len() ==> (#[trigger] item[i]).0@ == post_item_keys()[i]
    &&& text_field(item, "post_id"@) == Some(post.post_id@)
    &&& item_get(item, "created_at"@) matches Some(ItemValue::N(n)) && n@ == decimal_text(
        post.created_at,
    )
    &&& text_field(item, "title"@) == Some(post.title@)
    &&& text_field(item, "slug"@) == Some(post.slug@)
    &&& text_field(item, "content"@) == Some(post.content@)
    &&& text_field(item, "summary"@) == Some(post.summary@)
    &&& text_field(item, "author"@) == Some(post.author@)
    &&& item_get(item, "tags"@) matches Some(ItemValue::L(list)) && list@.len() == post.tags@.len()
        && forall|i: int|
        0 <= i < list@.len() ==> ((#[trigger] list@[i]) matches ListEntry::S(s) && s@
            == post.tags@[i]@)
    &&& text_field(item, "status"@) == Some(post.status.text())
    &&& item_get(item, "updated_at"@) matches Some(ItemValue::N(n)) && n@ == decimal_text(
        post.updated_at,
    )
    &&& match post.published_at {
        Some(t) => item_get(item, "published_at"@) matches Some(ItemValue::N(n)) && n@
            == decimal_text(t),
        None => item_get(item, "published_at"@) is None,
    }
}

fn entry(key: &str, value: ItemValue) -> (res: (String, ItemValue))
    ensures
        res.0@ == key@,
        res.1 == value,
{
    (String::from_str(key), value)
}

proof fn lemma_item_get_at(item: Seq<(String, ItemValue)>, k: int)
    requires
        0 <= k < item.len(),
        forall|i: int| 0 <= i < k ==> (#[trigger] item[i]).0@ != item[k].0@,
    ensures
        item_get(item, item[k].0@) == Some(item[k].1),
    decreases k,
{
    if k > 0 {
        let rest = item.skip(1);
        assert forall|i: int| 0 <= i < k - 1 implies (#[trigger] rest[i]).0@ != rest[k - 1].0@ by {
            assert(rest[i] == item[i + 1]);
        }
        lemma_item_get_at(rest, k - 1);
    }
}

proof fn lemma_item_get_absent(item: Seq<(String, ItemValue)>, key: Seq<char>)
    requires
        forall|i: int| 0 <= i < item.len() ==> (#[trigger] item[i]).0@ != key,
    ensures
        item_get(item, key) is None,
    decreases item.len(),
{
    if item.len() > 0 {
        let rest = item.skip(1);
        assert forall|i: int| 0 <= i < rest.len() implies (#[trigger] rest[i]).0@ != key by {
            assert(rest[i] == item[i + 1]);
        }
        lemma_item_get_absent(rest, key);
    }
}

proof fn lemma_keys_distinct()
    ensures
        forall|i: int, j: int|
            0 <= i < 11 && 0 <= j < 11 && i != j ==> post_item_keys()[i] != post_item_keys()[j],
{
    reveal_strlit("post_id");
    reveal_strlit("created_at");
    reveal_strlit("title");
    reveal_strlit("slug");
    reveal_strlit("content");
    reveal_strlit("summary");
    reveal_strlit("author");
    reveal_strlit("tags");
    reveal_strlit("status");
    reveal_strlit("updated_at");
    reveal_strlit("published_at");
    let k = post_item_keys();
    assert forall|i: int, j: int| 0 <= i < 11 && 0 <= j < 11 && i != j implies k[i] != k[j] by {
        if k[i] == k[j] {
            assert(k[i].len() == k[j].len());
            assert(k[i][0] == k[j][0]);
            assert(k[i][1] == k[j][1]);
        }
    }
}

impl BlogPost {
    /// The item written for the post (create or overwrite).
    pub fn to_item(&self) -> (res: Vec<(String, ItemValue)>)
        ensures
            item_describes(res@, *self),
            text_field(res@, "post_id"@) == Some(self.post_id@),
            text_field(res@, "title"@) == Some(self.title@),
            text_field(res@, "slug"@) == Some(self.slug@),
            text_field(res@, "content"@) == Some(self.content@),
            text_field(res@, "summary"@) == Some(self.summary@),
            text_field(res@, "author"@) == Some(self.author@),
            text_field(res@, "status"@) == Some(self.status.text()),
            number_field(res@, "created_at"@) == Some(self.created_at),
            number_field(res@, "updated_at"@) == Some(self.updated_at),
            number_field(res@, "published_at"@) == self.published_at,
            tags_field(res@) == texts(self.tags@),
    {
        let mut tags: Vec<ListEntry> = Vec::new();
        let mut i: usize = 0;
        while i < self.tags.len()
            invariant
                i <= self.tags@.len(),
                tags@.len() == i,
                forall|k: int|
                    0 <= k < i ==> ((#[trigger] tags@[k]) matches ListEntry::S(s) && s@
                        == self.tags@[k]@),
            decreases self.tags@.len() - i,
        {
            tags.push(ListEntry::S(self.tags[i].clone()));
            i = i + 1;
        }
        let mut item: Vec<(String, ItemValue)> = Vec::new();
        item.push(entry("post_id", ItemValue::S(self.post_id.clone())));
        item.push(entry("created_at", ItemValue::N(i64_text(self.created_at))));
        item.push(entry("title", ItemValue::S(self.title.clone())));
        item.push(entry("slug", ItemValue::S(self.slug.clone())));
        item.push(entry("content", ItemValue::S(self.content.clone())));
        item.push(entry("summary", ItemValue::S(self.summary.clone())));
        item.push(entry("author", ItemValue::S(self.author.clone())));
        item.push(entry("tags", ItemValue::L(tags)));
        item.push(entry("status", ItemValue::S(self.status.to_string())));
        item.push(entry("updated_at", ItemValue::N(i64_text(self.updated_at))));
        match self.published_at {
            Some(t) => {
                item.push(entry("published_at", ItemValue::N(i64_text(t))));
            },
            None => {},
        }
        proof {
            let s = item@;
            lemma_keys_distinct();
            assert forall|i: int| 0 <= i < s.len() implies (#[trigger] s[i]).0@ == post_item_keys()[i] by {}
            assert forall|k: int| 0 <= k < s.len() implies item_get(s, s[k].0@) == Some(s[k].1) by {
                assert forall|i: int| 0 <= i < k implies (#[trigger] s[i]).0@ != s[k].0@ by {
                    assert(s[i].0@ == post_item_keys()[i]);
                    assert(s[k].0@ == post_item_keys()[k]);
                }
                lemma_item_get_at(s, k);
            }
            assert(item_get(s, s[0].0@) == Some(s[0].1));
            assert(item_get(s, s[1].0@) == Some(s[1].1));
            assert(item_get(s, s[2].0@) == Some(s[2].1));
            assert(item_get(s, s[3].0@) == Some(s[3].1));
            assert(item_get(s, s[4].0@) == Some(s[4].1));
            assert(item_get(s, s[5].0@) == Some(s[5].1));
            assert(item_get(s, s[6].0@) == Some(s[6].1));
            assert(item_get(s, s[7].0@) == Some(s[7].1));
            assert(item_get(s, s[8].0@) == Some(s[8].1));
            assert(item_get(s, s[9].0@) == Some(s[9].1));
            if self.published_at is Some {
                assert(item_get(s, s[10].0@) == Some(s[10].1));
            } else {
                assert forall|i: int| 0 <= i < s.len() implies (#[trigger] s[i]).0@ != "published_at"@ by {
                    assert(s[i].0@ == post_item_keys()[i]);
                    assert(post_item_keys()[10] == "published_at"@);
                }
                lemma_item_get_absent(s, "published_at"@);
            }
        }
        proof {
            lemma_item_describes_fields(item@, *self);
        }
        item
    }
}


proof fn lemma_digits_of(m: nat)
    ensures
        digits_of(m).len() > 0,
        forall|i: int| 0 <= i < digits_of(m).len() ==> is_digit(#[trigger] digits_of(m)[i]),
        digits_value(digits_of(m)) == m,
    decreases m,
{
    assert(((m % 10 + '0' as int) as char) as int == m % 10 + '0' as int);
    if m < 10 {
        assert(((m + '0' as int) as char) as int == m + '0' as int);
        assert(digits_of(m).drop_last() =~= Seq::<char>::empty());
        assert(digits_value(digits_of(m)) == digits_value(digits_of(m).drop_last()) * 10 + (
        digits_of(m).last() as int - '0' as int));
    } else {
        lemma_digits_of(m / 10);
        let d = digits_of(m);
        assert(d.drop_last() =~= digits_of(m / 10));
        assert(m == (m / 10) * 10 + m % 10) by (nonlinear_arith);
        assert(digits_value(d) == digits_value(d.drop_last()) * 10 + (d.last() as int - '0' as int));
        assert(d.last() as int - '0' as int == m % 10);
        assert(digits_value(d.drop_last()) == m / 10);
    }
}

/// The decimal text of a number reads back as that number.
pub proof fn lemma_decimal_round_trip(n: i64)
    ensures
        decimal_i64(decimal_text(n)) == Some(n),
{
    let s = decimal_text(n);
    if n < 0 {
        let m = (-n) as nat;
        lemma_digits_of(m);
        assert(s.skip(1) =~= digits_of(m));
    } else {
        lemma_digits_of(n as nat);
        assert(is_digit(s[0]));
    }
}

/// Every element of an all-strings list is kept, in order.
proof fn lemma_strings_in_all(list: Seq<ListEntry>, tags: Seq<String>)
    requires
        list.len() == tags.len(),
        forall|i: int| 0 <= i < list.len() ==> ((#[trigger] list[i]) matches ListEntry::S(s) && s@ == tags[i]@),
    ensures
        strings_in(list) == texts(tags),
    decreases list.len(),
{
    if list.len() > 0 {
        lemma_strings_in_all(list.drop_last(), tags.drop_last());
        assert(list.last() == list[list.len() - 1]);
        assert(texts(tags) =~= texts(tags.drop_last()).push(tags.last()@));
    }
}

/// A post read from an item takes each field from the attribute of its own
/// name: the texts from the string attributes, the tags from the `tags`
/// list, the status from `status` (only `published` is published), and the
/// timestamps from the number attributes.
pub proof fn lemma_item_fields(post: BlogPost, item: Seq<(String, ItemValue)>)
    requires
        missing_field(item) is None,
        post_of_item(post, item),
    ensures
        Some(post.post_id@) == text_field(item, "post_id"@),
        Some(post.title@) == text_field(item, "title"@),
        Some(post.slug@) == text_field(item, "slug"@),
        Some(post.content@) == text_field(item, "content"@),
        Some(post.summary@) == text_field(item, "summary"@),
        Some(post.author@) == text_field(item, "author"@),
        texts(post.tags@) == tags_field(item),
        post.status == if text_field(item, "status"@) == Some("published"@) {
            PostStatus::Published
        } else {
            PostStatus::Draft
        },
        Some(post.created_at) == number_field(item, "created_at"@),
        Some(post.updated_at) == number_field(item, "updated_at"@),
        post.published_at == number_field(item, "published_at"@),
{
}

/// The item written for a post holds each field under the attribute of its
/// own name: the texts as strings, the status by name, the timestamps as
/// numbers that read back as the same values, and the tags as a list of
/// their strings.
pub proof fn lemma_item_describes_fields(item: Seq<(String, ItemValue)>, post: BlogPost)
    requires
        item_describes(item, post),
    ensures
        text_field(item, "post_id"@) == Some(post.post_id@),
        text_field(item, "title"@) == Some(post.title@),
        text_field(item, "slug"@) == Some(post.slug@),
        text_field(item, "content"@) == Some(post.content@),
        text_field(item, "summary"@) == Some(post.summary@),
        text_field(item, "author"@) == Some(post.author@),
        text_field(item, "status"@) == Some(post.status.text()),
        number_field(item, "created_at"@) == Some(post.created_at),
        number_field(item, "updated_at"@) == Some(post.updated_at),
        number_field(item, "published_at"@) == post.published_at,
        tags_field(item) == texts(post.tags@),
{
    lemma_decimal_round_trip(post.created_at);
    lemma_decimal_round_trip(post.updated_at);
    if let Some(t) = post.published_at {
        lemma_decimal_round_trip(t);
    }
    if let Some(ItemValue::L(list)) = item_get(item, "tags"@) {
        lemma_strings_in_all(list@, post.tags@);
    }
}

/// Writing a post as an item and reading the item back gives the post
/// again, field for field; only the Markdown source, which items do not
/// carry, comes back empty.
pub proof fn lemma_item_round_trip(post: BlogPost, item: Seq<(String, ItemValue)>, back: BlogPost)
    requires
        item_describes(item, post),
        post_of_item(back, item),
    ensures
        missing_field(item) is None,
        back.post_id@ == post.post_id@,
        back.title@ == post.title@,
        back.slug@ == post.slug@,
        back.content@ == post.content@,
        back.content_md@ == Seq::<char>::empty(),
        back.summary@ == post.summary@,
        back.author@ == post.author@,
        texts(back.tags@) == texts(post.tags@),
        back.status == post.status,
        back.created_at == post.created_at,
        back.updated_at == post.updated_at,
        back.published_at == post.published_at,
{
    lemma_decimal_round_trip(post.created_at);
    lemma_decimal_round_trip(post.updated_at);
    if let Some(t) = post.published_at {
        lemma_decimal_round_trip(t);
    }
    reveal_strlit("draft");
    reveal_strlit("published");
    assert("draft"@.len() == 5);
    assert("published"@.len() == 9);
    assert(PostStatus::parse(post.status.text()) == post.status);
    if let Some(ItemValue::L(list)) = item_get(item, "tags"@) {
        lemma_strings_in_all(list@, post.tags@);
    }
}


/// The index of the first item that lacks an attribute, if any.
pub open spec fn first_incomplete(items: Seq<Vec<(String, ItemValue)>>) -> Option<int>
    decreases items.len(),
{
    if items.len() == 0 {
        None
    } else {
        match first_incomplete(items.drop_last()) {
            Some(i) => Some(i),
            None => if missing_field(items.last()@) is Some {
                Some(items.len() - 1)
            } else {
                None
            },
        }
    }
}

/// The posts a query returned, in order; the first item that lacks an
/// attribute fails the whole answer.
pub fn posts_from_items(items: &[Vec<(String, ItemValue)>]) -> (res: Result<Vec<BlogPost>, RepositoryError>)
    ensures
        match first_incomplete(items@) {
            Some(i) => res matches Err(RepositoryError::Infrastructure(m)) && m@ == "missing "@
                + missing_field(items@[i]@).unwrap(),
            None => res matches Ok(posts) && posts@.len() == items@.len() && forall|k: int|
                0 <= k < items@.len() ==> post_of_item(#[trigger] posts@[k], items@[k]@),
        },
{
    let mut posts: Vec<BlogPost> = Vec::new();
    let mut i: usize = 0;
    while i < items.len()
        invariant
            i <= items@.len(),
            first_incomplete(items@.take(i as int)) is None,
            posts@.len() == i,
            forall|k: int| 0 <= k < i ==> post_of_item(#[trigger] posts@[k], items@[k]@),
        decreases items@.len() - i,
    {
        assert(items@.take(i + 1).drop_last() =~= items@.take(i as int));
        match BlogPost::from_item(items[i].as_slice()) {
            Ok(post) => {
                posts.push(post);
            },
            Err(e) => {
                proof {
                    lemma_first_incomplete_prefix(items@, i + 1);
                }
                return Err(e);
            },
        }
        i = i + 1;
    }
    assert(items@.take(items@.len() as int) =~= items@);
    Ok(posts)
}

proof fn lemma_first_incomplete_prefix(items: Seq<Vec<(String, ItemValue)>>, k: int)
    requires
        0 <= k <= items.len(),
        first_incomplete(items.take(k)) is Some,
    ensures
        first_incomplete(items) == first_incomplete(items.take(k)),
    decreases items.len() - k,
{
    if k == items.len() {
        assert(items.take(k) =~= items);
    } else {
        assert(items.take(k + 1).drop_last() =~= items.take(k));
        lemma_first_incomplete_prefix(items, k + 1);
    }
}

} // verus!
