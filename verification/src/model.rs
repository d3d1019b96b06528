//! The domain model of the blog: a post and its listing projection.

use vstd::prelude::*;

use crate::dates::{default_instant, in_utc_range, utc_instant};
use crate::kernel::{is_uuid_v4_text, Datetime, PostUuid};
use crate::status::PostStatus;

verus! {

/// A blog post (the aggregate root). Timestamps are Unix seconds.
#[derive(Debug, Clone)]
pub struct BlogPost {
    pub post_id: String,
    pub title: String,
    pub slug: String,
    /// The rendered HTML the pages display.
    pub content: String,
    /// The authored Markdown source; empty where no source is stored.
    pub content_md: String,
    pub summary: String,
    pub author: String,
    pub tags: Vec<String>,
    pub status: PostStatus,
    pub created_at: i64,
    pub updated_at: i64,
    pub published_at: Option<i64>,
}

impl BlogPost {
    /// A new draft with the given identifier, created and updated at `now`.
    pub fn new_with(
        post_id: String,
        now: i64,
        title: String,
        slug: String,
        content: String,
        content_md: String,
        summary: String,
        author: String,
        tags: Vec<String>,
    ) -> (res: Self)
        ensures
            res.post_id == post_id,
            res.title == title,
            res.slug == slug,
            res.content == content,
            res.content_md == content_md,
            res.summary == summary,
            res.author == author,
            res.tags == tags,
            res.status == PostStatus::Draft,
            res.created_at == now,
            res.updated_at == now,
            res.published_at is None,
    {
        BlogPost {
            post_id,
            title,
            slug,
            content,
            content_md,
            summary,
            author,
            tags,
            status: PostStatus::Draft,
            created_at: now,
            updated_at: now,
            published_at: None,
        }
    }

    /// A new draft with a fresh random identifier, created and updated now.
    pub fn new(
        title: String,
        slug: String,
        content: String,
        content_md: String,
        summary: String,
        author: String,
        tags: Vec<String>,
    ) -> (res: Self)
        ensures
            is_uuid_v4_text(res.post_id@),
            res.title == title,
            res.slug == slug,
            res.content == content,
            res.content_md == content_md,
            res.summary == summary,
            res.author == author,
            res.tags == tags,
            res.status == PostStatus::Draft,
            res.created_at == res.updated_at,
            0 <= res.created_at,
            in_utc_range(res.created_at),
            res.published_at is None,
    {
        let post_id = PostUuid::new();
        let now = Datetime::now();
        BlogPost::new_with(post_id, now, title, slug, content, content_md, summary, author, tags)
    }
}

/// The listing projection of a post.
#[derive(Debug, Clone)]
pub struct BlogPostSummary {
    pub post_id: String,
    pub title: String,
    pub slug: String,
    pub summary: String,
    pub author: String,
    pub tags: Vec<String>,
    pub created_at: i64,
    pub updated_at: i64,
    pub published_at: Option<i64>,
}

impl BlogPostSummary {
    /// The listing projection of `post`: its fields but the bodies and status.
    pub open spec fn of(post: BlogPost) -> BlogPostSummary {
        BlogPostSummary {
            post_id: post.post_id,
            title: post.title,
            slug: post.slug,
            summary: post.summary,
            author: post.author,
            tags: post.tags,
            created_at: post.created_at,
            updated_at: post.updated_at,
            published_at: post.published_at,
        }
    }
}

/// The listing projection of a post carries its fields of the same name.
pub proof fn lemma_summary_fields(post: BlogPost)
    ensures
        BlogPostSummary::of(post).post_id == post.post_id,
        BlogPostSummary::of(post).title == post.title,
        BlogPostSummary::of(post).slug == post.slug,
        BlogPostSummary::of(post).summary == post.summary,
        BlogPostSummary::of(post).author == post.author,
        BlogPostSummary::of(post).tags == post.tags,
        BlogPostSummary::of(post).created_at == post.created_at,
        BlogPostSummary::of(post).updated_at == post.updated_at,
        BlogPostSummary::of(post).published_at == post.published_at,
{
}

impl From<BlogPost> for BlogPostSummary {
    fn from(post: BlogPost) -> (res: Self) {
        BlogPostSummary {
            post_id: post.post_id,
            title: post.title,
            slug: post.slug,
            summary: post.summary,
            author: post.author,
            tags: post.tags,
            created_at: post.created_at,
            updated_at: post.updated_at,
            published_at: post.published_at,
        }
    }
}

impl vstd::std_specs::convert::FromSpecImpl<BlogPost> for BlogPostSummary {
    open spec fn obeys_from_spec() -> bool {
        true
    }

    open spec fn from_spec(post: BlogPost) -> BlogPostSummary {
        BlogPostSummary::of(post)
    }
}


/// A post as a relational row holds it: the status by name.
#[derive(Debug, Clone)]
pub struct StoredPost {
    pub post_id: String,
    pub title: String,
    pub slug: String,
    pub content: String,
    pub content_md: String,
    pub summary: String,
    pub author: String,
    pub tags: Vec<String>,
    pub status: String,
    pub created_at: i64,
    pub updated_at: i64,
    pub published_at: Option<i64>,
}

impl BlogPost {
    /// The post a stored row describes: a status other than `"published"`
    /// reads as a draft.
    pub fn from_stored(row: StoredPost) -> (res: BlogPost)
        ensures
            res.post_id == row.post_id,
            res.title == row.title,
            res.slug == row.slug,
            res.content == row.content,
            res.content_md == row.content_md,
            res.summary == row.summary,
            res.author == row.author,
            res.tags == row.tags,
            res.status == PostStatus::parse(row.status@),
            res.created_at == row.created_at,
            res.updated_at == row.updated_at,
            res.published_at == row.published_at,
    {
        let status = PostStatus::from_stored(row.status.as_str());
        BlogPost {
            post_id: row.post_id,
            title: row.title,
            slug: row.slug,
            content: row.content,
            content_md: row.content_md,
            summary: row.summary,
            author: row.author,
            tags: row.tags,
            status,
            created_at: row.created_at,
            updated_at: row.updated_at,
            published_at: row.published_at,
        }
    }
}


impl BlogPost {
    /// Publishes the post at `now`: published, with `now` as its publication
    /// and last update; the rest of the post is unchanged.
    pub fn publish_at(&mut self, now: i64)
        ensures
            final(self).status == PostStatus::Published,
            final(self).published_at == Some(now),
            final(self).updated_at == now,
            final(self).post_id == old(self).post_id,
            final(self).title == old(self).title,
            final(self).slug == old(self).slug,
            final(self).content == old(self).content,
            final(self).content_md == old(self).content_md,
            final(self).summary == old(self).summary,
            final(self).author == old(self).author,
            final(self).tags == old(self).tags,
            final(self).created_at == old(self).created_at,
    {
        self.status = PostStatus::Published;
        self.published_at = Some(now);
        self.updated_at = now;
    }

    /// Publishes the post now (the machine's clock).
    pub fn publish(&mut self)
        ensures
            final(self).status == PostStatus::Published,
            final(self).published_at == Some(final(self).updated_at),
            0 <= final(self).updated_at,
            in_utc_range(final(self).updated_at),
            final(self).post_id == old(self).post_id,
            final(self).title == old(self).title,
            final(self).slug == old(self).slug,
            final(self).content == old(self).content,
            final(self).content_md == old(self).content_md,
            final(self).summary == old(self).summary,
            final(self).author == old(self).author,
            final(self).tags == old(self).tags,
            final(self).created_at == old(self).created_at,
    {
        let now = Datetime::now();
        self.publish_at(now);
    }
}

/// The instant chrono makes of `secs`, in Unix seconds; where chrono cannot
/// represent it, its default instant, the epoch.
pub open spec fn instant_or_epoch(secs: i64) -> i64 {
    if in_utc_range(secs) {
        secs
    } else {
        0
    }
}

/// The instant chrono makes of `secs`, in Unix seconds, if it can.
pub open spec fn instant_if_representable(secs: i64) -> Option<i64> {
    if in_utc_range(secs) {
        Some(secs)
    } else {
        None
    }
}

fn instant_or_default(secs: i64) -> (res: i64)
    ensures
        res == instant_or_epoch(secs),
{
    match utc_instant(secs) {
        Some(t) => t,
        None => default_instant(),
    }
}

impl BlogPost {
    /// The creation time as a chrono instant (in Unix seconds); the epoch
    /// where chrono cannot represent it.
    pub fn created_at_datetime(&self) -> (res: i64)
        ensures
            res == instant_or_epoch(self.created_at),
    {
        instant_or_default(self.created_at)
    }

    /// The last update as a chrono instant (in Unix seconds); the epoch
    /// where chrono cannot represent it.
    pub fn updated_at_datetime(&self) -> (res: i64)
        ensures
            res == instant_or_epoch(self.updated_at),
    {
        instant_or_default(self.updated_at)
    }

    /// The publication time as a chrono instant (in Unix seconds): none for
    /// an unpublished post or where chrono cannot represent it.
    pub fn published_at_datetime(&self) -> (res: Option<i64>)
        ensures
            res == match self.published_at {
                Some(t) => instant_if_representable(t),
                None => None,
            },
    {
        match self.published_at {
            Some(t) => utc_instant(t),
            None => None,
        }
    }
}

} // verus!
