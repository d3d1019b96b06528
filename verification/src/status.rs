//! Publication status of a post.

use vstd::prelude::*;
use vstd::string::StringExecFns;

use crate::text::same_text;

verus! {

/// Publication status of a post.
#[derive(Debug, Clone, Copy, PartialEq, Eq, Structural)]
pub enum PostStatus {
    Draft,
    Published,
}

impl PostStatus {
    /// The stored and wire name of the status.
    pub open spec fn text(self) -> Seq<char> {
        match self {
            PostStatus::Draft => "draft"@,
            PostStatus::Published => "published"@,
        }
    }

    /// The status read back from its stored name: `"published"` is
    /// published, anything else a draft.
    pub open spec fn parse(s: Seq<char>) -> PostStatus {
        if s == "published"@ {
            PostStatus::Published
        } else {
            PostStatus::Draft
        }
    }

    /// The stored and wire name of the status: `"draft"` or `"published"`.
    pub fn as_str(&self) -> (res: &'static str)
        ensures
            res@ == self.text(),
    {
        match self {
            PostStatus::Draft => "draft",
            PostStatus::Published => "published",
        }
    }

    /// The status as text, as it displays.
    pub fn to_string(&self) -> (res: String)
        ensures
            res@ == self.text(),
    {
        String::from_str(self.as_str())
    }

    /// Maps a stored status back onto the model: `"published"` is published,
    /// every other value reads as a draft.
    pub fn from_stored(s: &str) -> (res: PostStatus)
        ensures
            res == PostStatus::parse(s@),
    {
        if same_text(s, "published") {
            PostStatus::Published
        } else {
            PostStatus::Draft
        }
    }
}


/// A status written under its name reads back as the same status.
pub proof fn lemma_status_round_trip(status: PostStatus)
    ensures
        PostStatus::parse(status.text()) == status,
{
    reveal_strlit("draft");
    reveal_strlit("published");
    assert("draft"@.len() != "published"@.len());
}

/// A draft is stored as `draft` and a published post as `published`; only
/// `published` reads back as published.
pub proof fn lemma_status_names(s: Seq<char>)
    ensures
        PostStatus::Draft.text() == "draft"@,
        PostStatus::Published.text() == "published"@,
        (PostStatus::parse(s) == PostStatus::Published) <==> s == "published"@,
{
}

} // verus!
