//! The use cases of the blog: what each one answers for what the
//! persistence port returned, and the post that an upsert writes.

use vstd::prelude::*;
use vstd::string::StringExecFns;

use crate::dto::{BlogPostDTO, BlogPostSummaryDTO, PostMarkdownDTO};
use crate::errors::{RepositoryError, UseCaseError};
use crate::kernel::{is_uuid_v4_text, Datetime, PostUuid};
use crate::model::{BlogPost, BlogPostSummary};
use crate::status::PostStatus;

verus! {

broadcast use vstd::std_specs::vec::group_vec_axioms;

/// Command to create or replace a post, keyed by slug. Both renditions are
/// stored: `content_html` is what the pages display, `content_md` the
/// authored source the `.md` crawler variants serve.
#[derive(Debug, Clone)]
pub struct UpsertPostCommand {
    pub title: String,
    pub slug: String,
    pub content_html: String,
    pub content_md: String,
    pub summary: String,
    pub author: String,
    pub tags: Vec<String>,
    pub published: bool,
    /// Authoring date, Unix seconds.
    pub date: i64,
}

/// The listing entry of a post, on the wire.
pub open spec fn listing_entry(post: BlogPost) -> BlogPostSummaryDTO {
    BlogPostSummaryDTO::of(BlogPostSummary::of(post))
}

/// A listing entry carries its post's fields of the same name: identifier,
/// title, slug, summary, author, tags and the three timestamps.
pub proof fn lemma_listing_entry_fields(post: BlogPost)
    ensures
        listing_entry(post).post_id == post.post_id,
        listing_entry(post).title == post.title,
        listing_entry(post).slug == post.slug,
        listing_entry(post).summary == post.summary,
        listing_entry(post).author == post.author,
        listing_entry(post).tags == post.tags,
        listing_entry(post).created_at == post.created_at,
        listing_entry(post).updated_at == post.updated_at,
        listing_entry(post).published_at == post.published_at,
{
}

/// The answer of "list the most recent published posts" for what the
/// repository returned: each post becomes its listing entry, in order; a
/// repository failure is passed on.
pub fn published_listing(found: Result<Vec<BlogPost>, RepositoryError>) -> (res: Result<
    Vec<BlogPostSummaryDTO>,
    UseCaseError,
>)
    ensures
        match found {
            Ok(posts) => res matches Ok(entries) && entries@.len() == posts@.len() && forall|i: int|
                0 <= i < posts@.len() ==> #[trigger] entries@[i] == listing_entry(posts@[i]),
            Err(e) => res == Err::<Vec<BlogPostSummaryDTO>, UseCaseError>(UseCaseError::Repository(e)),
        },
{
    match found {
        Ok(posts) => {
            let ghost all = posts@;
            let mut entries: Vec<BlogPostSummaryDTO> = Vec::new();
            for post in iter: posts.into_iter()
                invariant
                    iter.seq() == all,
                    entries@.len() == iter.index(),
                    forall|i: int|
                        0 <= i < iter.index() ==> #[trigger] entries@[i] == listing_entry(all[i]),
            {
                let summary = BlogPostSummary::from(post);
                entries.push(BlogPostSummaryDTO::from(summary));
            }
            Ok(entries)
        },
        Err(e) => Err(UseCaseError::Repository(e)),
    }
}

/// The answer of "fetch a post by slug" for what the repository returned.
/// Only published posts are public: a draft reads as not found, so its body
/// is never served to whoever guesses its slug.
pub fn visible_post(found: Result<Option<BlogPost>, RepositoryError>) -> (res: Result<
    Option<BlogPostDTO>,
    UseCaseError,
>)
    ensures
        match found {
            Ok(Some(post)) => if post.status == PostStatus::Published {
                res matches Ok(Some(dto)) && BlogPostDTO::mirrors(dto, post)
            } else {
                res matches Ok(None)
            },
            Ok(None) => res matches Ok(None),
            Err(e) => res == Err::<Option<BlogPostDTO>, UseCaseError>(UseCaseError::Repository(e)),
        },
        res matches Ok(Some(dto)) ==> dto.status@ == "published"@,
{
    match found {
        Ok(Some(post)) => {
            if post.status == PostStatus::Published {
                Ok(Some(BlogPostDTO::from(post)))
            } else {
                Ok(None)
            }
        },
        Ok(None) => Ok(None),
        Err(e) => Err(UseCaseError::Repository(e)),
    }
}

/// The answer of "fetch a post by id": a missing post is an error.
pub fn post_by_id(found: Result<Option<BlogPost>, RepositoryError>) -> (res: Result<
    BlogPostDTO,
    UseCaseError,
>)
    ensures
        match found {
            Ok(Some(post)) => res matches Ok(dto) && BlogPostDTO::mirrors(dto, post),
            Ok(None) => res matches Err(UseCaseError::NotFound),
            Err(e) => res == Err::<BlogPostDTO, UseCaseError>(UseCaseError::Repository(e)),
        },
{
    match found {
        Ok(Some(post)) => Ok(BlogPostDTO::from(post)),
        Ok(None) => Err(UseCaseError::NotFound),
        Err(e) => Err(UseCaseError::Repository(e)),
    }
}

/// The answer of "fetch a post's Markdown source by slug". Drafts are
/// returned too: the endpoint that serves the source gates on status.
pub fn post_markdown(found: Result<Option<BlogPost>, RepositoryError>) -> (res: Result<
    Option<PostMarkdownDTO>,
    UseCaseError,
>)
    ensures
        match found {
            Ok(Some(post)) => res matches Ok(Some(md)) && md.slug == post.slug && md.title
                == post.title && md.status@ == post.status.text() && md.content_md
                == post.content_md,
            Ok(None) => res matches Ok(None),
            Err(e) => res == Err::<Option<PostMarkdownDTO>, UseCaseError>(
                UseCaseError::Repository(e),
            ),
        },
{
    match found {
        Ok(Some(post)) => Ok(Some(PostMarkdownDTO::from(post))),
        Ok(None) => Ok(None),
        Err(e) => Err(UseCaseError::Repository(e)),
    }
}

/// The answer of "delete every post not in the keep list": the deleted slugs.
pub fn pruned_slugs(found: Result<Vec<String>, RepositoryError>) -> (res: Result<
    Vec<String>,
    UseCaseError,
>)
    ensures
        match found {
            Ok(slugs) => res == Ok::<Vec<String>, UseCaseError>(slugs),
            Err(e) => res == Err::<Vec<String>, UseCaseError>(UseCaseError::Repository(e)),
        },
{
    match found {
        Ok(slugs) => Ok(slugs),
        Err(e) => Err(UseCaseError::Repository(e)),
    }
}

/// The post an upsert writes for `cmd`, given a fresh identifier and the
/// current time. `post_id` and `created_at` only apply on first insert: on a
/// slug conflict the repository keeps the stored ones.
pub open spec fn upserted(cmd: UpsertPostCommand, post_id: String, now: i64) -> BlogPost {
    let status = if cmd.published {
        PostStatus::Published
    } else {
        PostStatus::Draft
    };
    BlogPost {
        post_id,
        title: cmd.title,
        slug: cmd.slug,
        content: cmd.content_html,
        content_md: cmd.content_md,
        summary: cmd.summary,
        author: cmd.author,
        tags: cmd.tags,
        status,
        created_at: cmd.date,
        updated_at: now,
        published_at: if cmd.published {
            Some(cmd.date)
        } else {
            None
        },
    }
}

/// The post an upsert writes for `cmd`, with identifier `post_id`, updated at `now`.
pub fn upsert_record(cmd: UpsertPostCommand, post_id: String, now: i64) -> (res: BlogPost)
    ensures
        res == upserted(cmd, post_id, now),
        res.post_id == post_id,
        res.title == cmd.title,
        res.slug == cmd.slug,
        res.content == cmd.content_html,
        res.content_md == cmd.content_md,
        res.summary == cmd.summary,
        res.author == cmd.author,
        res.tags == cmd.tags,
        res.created_at == cmd.date,
        res.updated_at == now,
{
    let status = if cmd.published {
        PostStatus::Published
    } else {
        PostStatus::Draft
    };
    let published_at = if status == PostStatus::Published {
        Some(cmd.date)
    } else {
        None
    };
    BlogPost {
        post_id,
        title: cmd.title,
        slug: cmd.slug,
        content: cmd.content_html,
        content_md: cmd.content_md,
        summary: cmd.summary,
        author: cmd.author,
        tags: cmd.tags,
        published_at,
        status,
        created_at: cmd.date,
        updated_at: now,
    }
}

/// The post an upsert writes for `cmd`: a fresh random identifier, updated now.
pub fn prepare_upsert(cmd: UpsertPostCommand) -> (res: BlogPost)
    ensures
        is_uuid_v4_text(res.post_id@),
        res == upserted(cmd, res.post_id, res.updated_at),
        res.title == cmd.title,
        res.slug == cmd.slug,
        res.content == cmd.content_html,
        res.content_md == cmd.content_md,
        res.summary == cmd.summary,
        res.author == cmd.author,
        res.tags == cmd.tags,
        res.created_at == cmd.date,
{
    let post_id = PostUuid::new();
    let now = Datetime::now();
    upsert_record(cmd, post_id, now)
}


/// An upserted post carries the command's title, slug, bodies, summary,
/// author and tags unchanged, the identifier it was given, and is updated at
/// the given time.
pub proof fn lemma_upsert_fields(cmd: UpsertPostCommand, post_id: String, now: i64)
    ensures
        upserted(cmd, post_id, now).post_id == post_id,
        upserted(cmd, post_id, now).title == cmd.title,
        upserted(cmd, post_id, now).slug == cmd.slug,
        upserted(cmd, post_id, now).content == cmd.content_html,
        upserted(cmd, post_id, now).content_md == cmd.content_md,
        upserted(cmd, post_id, now).summary == cmd.summary,
        upserted(cmd, post_id, now).author == cmd.author,
        upserted(cmd, post_id, now).tags == cmd.tags,
        upserted(cmd, post_id, now).updated_at == now,
{
}

/// The answer of an upsert for what the repository's write returned: a
/// failed write passes its repository error on.
pub fn upsert_outcome(written: Result<(), RepositoryError>) -> (res: Result<(), UseCaseError>)
    ensures
        match written {
            Ok(()) => res == Ok::<(), UseCaseError>(()),
            Err(e) => res == Err::<(), UseCaseError>(UseCaseError::Repository(e)),
        },
{
    match written {
        Ok(()) => Ok(()),
        Err(e) => Err(UseCaseError::Repository(e)),
    }
}

/// An upserted post is published exactly when the command says so, and
/// then carries the authoring date as its publication date; it was created
/// at the authoring date whatever its status.
pub proof fn lemma_upsert_publication(cmd: UpsertPostCommand, post_id: String, now: i64)
    ensures
        (upserted(cmd, post_id, now).status == PostStatus::Published) == cmd.published,
        (upserted(cmd, post_id, now).status == PostStatus::Published) <==> upserted(
            cmd,
            post_id,
            now,
        ).published_at is Some,
        upserted(cmd, post_id, now).published_at is Some ==> upserted(cmd, post_id, now).published_at
            == Some(cmd.date),
        upserted(cmd, post_id, now).created_at == cmd.date,
{
}


/// The answer of the older page service for a post lookup: a missing post
/// is the error `"Post not found"`, a failed lookup passes its message on.
pub fn lookup_or_not_found(found: Result<Option<BlogPost>, String>) -> (res: Result<
    Option<BlogPostDTO>,
    String,
>)
    ensures
        match found {
            Ok(Some(post)) => res matches Ok(Some(dto)) && BlogPostDTO::mirrors(dto, post),
            Ok(None) => res matches Err(m) && m@ == "Post not found"@,
            Err(e) => res == Err::<Option<BlogPostDTO>, String>(e),
        },
{
    match found {
        Ok(Some(post)) => Ok(Some(BlogPostDTO::from(post))),
        Ok(None) => Err(String::from_str("Post not found")),
        Err(e) => Err(e),
    }
}

} // verus!
