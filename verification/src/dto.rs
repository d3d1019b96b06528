//! Wire representations of posts, as the pages and crawler endpoints read them.

use vstd::prelude::*;

use crate::model::{BlogPost, BlogPostSummary};

verus! {

/// A full post on the wire; the status travels as its name.
#[derive(Debug, Clone)]
pub struct BlogPostDTO {
    pub post_id: String,
    pub title: String,
    pub slug: String,
    pub content: String,
    pub summary: String,
    pub author: String,
    pub tags: Vec<String>,
    pub status: String,
    pub created_at: i64,
    pub updated_at: i64,
    pub published_at: Option<i64>,
}

impl BlogPostDTO {
    /// Whether `dto` carries exactly the fields of `post`, the status by name.
    pub open spec fn mirrors(dto: BlogPostDTO, post: BlogPost) -> bool {
        &&& dto.post_id == post.post_id
        &&& dto.title == post.title
        &&& dto.slug == post.slug
        &&& dto.content == post.content
        &&& dto.summary == post.summary
        &&& dto.author == post.author
        &&& dto.tags == post.tags
        &&& dto.status@ == post.status.text()
        &&& dto.created_at == post.created_at
        &&& dto.updated_at == post.updated_at
        &&& dto.published_at == post.published_at
    }

    /// The wire form of `post`.
    pub fn from(post: BlogPost) -> (res: Self)
        ensures
            BlogPostDTO::mirrors(res, post),
            res.post_id == post.post_id,
            res.title == post.title,
            res.slug == post.slug,
            res.content == post.content,
            res.summary == post.summary,
            res.author == post.author,
            res.tags == post.tags,
            res.status@ == post.status.text(),
            res.created_at == post.created_at,
            res.updated_at == post.updated_at,
            res.published_at == post.published_at,
    {
        let status = post.status.to_string();
        BlogPostDTO {
            post_id: post.post_id,
            title: post.title,
            slug: post.slug,
            content: post.content,
            summary: post.summary,
            author: post.author,
            tags: post.tags,
            status,
            created_at: post.created_at,
            updated_at: post.updated_at,
            published_at: post.published_at,
        }
    }
}

/// A post in a listing, on the wire.
#[derive(Debug, Clone)]
pub struct BlogPostSummaryDTO {
    pub post_id: String,
    pub title: String,
    pub slug: String,
    pub summary: String,
    pub author: String,
    pub tags: Vec<String>,
    pub created_at: i64,
    pub updated_at: i64,
    pub published_at: Option<i64>,
}

impl BlogPostSummaryDTO {
    /// The wire form of a listing entry: the same fields.
    pub open spec fn of(summary: BlogPostSummary) -> BlogPostSummaryDTO {
        BlogPostSummaryDTO {
            post_id: summary.post_id,
            title: summary.title,
            slug: summary.slug,
            summary: summary.summary,
            author: summary.author,
            tags: summary.tags,
            created_at: summary.created_at,
            updated_at: summary.updated_at,
            published_at: summary.published_at,
        }
    }
}

/// A full post on the wire carries the post's fields of the same name.
pub proof fn lemma_mirrors_fields(dto: BlogPostDTO, post: BlogPost)
    requires
        BlogPostDTO::mirrors(dto, post),
    ensures
        dto.post_id == post.post_id,
        dto.title == post.title,
        dto.slug == post.slug,
        dto.content == post.content,
        dto.summary == post.summary,
        dto.author == post.author,
        dto.tags == post.tags,
        dto.status@ == post.status.text(),
        dto.created_at == post.created_at,
        dto.updated_at == post.updated_at,
        dto.published_at == post.published_at,
{
}

/// A listing entry on the wire carries the entry's fields of the same name.
pub proof fn lemma_summary_dto_fields(summary: BlogPostSummary)
    ensures
        BlogPostSummaryDTO::of(summary).post_id == summary.post_id,
        BlogPostSummaryDTO::of(summary).title == summary.title,
        BlogPostSummaryDTO::of(summary).slug == summary.slug,
        BlogPostSummaryDTO::of(summary).summary == summary.summary,
        BlogPostSummaryDTO::of(summary).author == summary.author,
        BlogPostSummaryDTO::of(summary).tags == summary.tags,
        BlogPostSummaryDTO::of(summary).created_at == summary.created_at,
        BlogPostSummaryDTO::of(summary).updated_at == summary.updated_at,
        BlogPostSummaryDTO::of(summary).published_at == summary.published_at,
{
}

impl From<BlogPostSummary> for BlogPostSummaryDTO {
    fn from(summary: BlogPostSummary) -> (res: Self) {
        BlogPostSummaryDTO {
            post_id: summary.post_id,
            title: summary.title,
            slug: summary.slug,
            summary: summary.summary,
            author: summary.author,
            tags: summary.tags,
            created_at: summary.created_at,
            updated_at: summary.updated_at,
            published_at: summary.published_at,
        }
    }
}

impl vstd::std_specs::convert::FromSpecImpl<BlogPostSummary> for BlogPostSummaryDTO {
    open spec fn obeys_from_spec() -> bool {
        true
    }

    open spec fn from_spec(summary: BlogPostSummary) -> BlogPostSummaryDTO {
        BlogPostSummaryDTO::of(summary)
    }
}

/// The Markdown source of a post, for the `.md` crawler variants.
#[derive(Debug, Clone)]
pub struct PostMarkdownDTO {
    pub slug: String,
    pub title: String,
    pub status: String,
    pub content_md: String,
}

impl PostMarkdownDTO {
    /// The Markdown rendition of `post`: slug, title, status name and source.
    pub fn from(post: BlogPost) -> (res: Self)
        ensures
            res.slug == post.slug,
            res.title == post.title,
            res.status@ == post.status.text(),
            res.content_md == post.content_md,
    {
        let status = post.status.to_string();
        PostMarkdownDTO { slug: post.slug, title: post.title, status, content_md: post.content_md }
    }
}

} // verus!
