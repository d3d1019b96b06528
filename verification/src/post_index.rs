//! The static post index of the first version of the site: metadata read
//! from `meta.json` and posts rendered from plain CommonMark.

use vstd::prelude::*;

verus! {

/// Metadata of a post in the static index.
#[derive(Debug, Clone)]
pub struct PostMeta {
    pub id: String,
    pub slug: String,
    pub background_image: String,
    pub title: String,
    pub author: String,
    pub tags: Vec<String>,
    pub date: String,
}

/// A post with its rendered content.
#[derive(Debug, Clone)]
pub struct FullPost {
    pub meta: PostMeta,
    pub html_content: String,
}

/// What `pulldown_cmark` renders a Markdown document to with its default
/// options (plain CommonMark).
pub uninterp spec fn commonmark_html(markdown: Seq<char>) -> Seq<char>;

/// Calls `pulldown_cmark::html::push_html` on `pulldown_cmark::Parser::new`
/// (default options); the HTML is left to the name `commonmark_html`.
#[verifier::external_body]
fn render_commonmark(markdown: &str) -> (res: String)
    ensures
        res@ == commonmark_html(markdown@),
{
    let mut out = String::new();
    pulldown_cmark::html::push_html(&mut out, pulldown_cmark::Parser::new(markdown));
    out
}

/// The HTML of a fetched Markdown document.
pub fn markdown_content_html(markdown: &str) -> (res: String)
    ensures
        res@ == commonmark_html(markdown@),
{
    render_commonmark(markdown)
}

/// A post of the static index with its Markdown source rendered.
pub fn full_post(meta: PostMeta, markdown: &str) -> (res: FullPost)
    ensures
        res.meta == meta,
        res.html_content@ == commonmark_html(markdown@),
{
    FullPost { meta, html_content: render_commonmark(markdown) }
}

} // verus!
