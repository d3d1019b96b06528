//! The crawler documents (`/sitemap.xml`, `/feed.xml`, `/llms.txt`, the
//! `/blog/<slug>.md` variants) and the URL normalisation done before routing.
//! The XML is emitted as a single line: only parsers read it.

use vstd::prelude::*;
use vstd::string::StringExecFns;

use crate::dates::{rfc2822, rfc2822_date, rfc2822_writable, rfc3339, rfc3339_text};
use crate::dto::{BlogPostSummaryDTO, PostMarkdownDTO};
use crate::errors::UseCaseError;
use crate::text::{
    chars_of, concat, is_blank, join, lemma_concat_step, lemma_trim_by_bounds, lemma_trim_by_edges,
    matches_at, one_line, push_char, same_text, string_of_range, trim, trim_by, words,
};

verus! {

/// The XML text of one character: the markup characters become entities.
pub open spec fn xml_entity(c: char) -> Seq<char> {
    if c == '&' {
        "&amp;"@
    } else if c == '<' {
        "&lt;"@
    } else if c == '>' {
        "&gt;"@
    } else if c == '"' {
        "&quot;"@
    } else {
        seq![c]
    }
}

/// `s` with `&`, `<`, `>` and `"` written as XML entities.
pub open spec fn xml_escaped(s: Seq<char>) -> Seq<char>
    decreases s.len(),
{
    if s.len() == 0 {
        Seq::empty()
    } else {
        xml_escaped(s.drop_last()) + xml_entity(s.last())
    }
}

/// `raw` with `&`, `<`, `>` and `"` written as XML entities.
pub fn escape_xml(raw: &str) -> (res: String)
    ensures
        res@ == xml_escaped(raw@),
{
    let cs = chars_of(raw);
    let mut out = String::new();
    let mut i: usize = 0;
    while i < cs.len()
        invariant
            cs@ == raw@,
            i <= cs@.len(),
            out@ == xml_escaped(cs@.take(i as int)),
        decreases cs@.len() - i,
    {
        let c = cs[i];
        assert(cs@.take(i + 1).drop_last() =~= cs@.take(i as int));
        if c == '&' {
            out.append("&amp;");
        } else if c == '<' {
            out.append("&lt;");
        } else if c == '>' {
            out.append("&gt;");
        } else if c == '"' {
            out.append("&quot;");
        } else {
            push_char(&mut out, c);
        }
        i = i + 1;
    }
    assert(cs@.take(cs@.len() as int) =~= cs@);
    out
}

/// `text` folded onto one line (see `one_line`).
pub open spec fn one_line_text(text: Seq<char>) -> Seq<char> {
    join(words(text), seq![' '])
}

/// The Markdown text of one character: brackets are escaped with a backslash.
pub open spec fn bracket_entity(c: char) -> Seq<char> {
    if c == '[' {
        seq!['\\', '[']
    } else if c == ']' {
        seq!['\\', ']']
    } else {
        seq![c]
    }
}

/// `s` with its brackets escaped with a backslash.
pub open spec fn brackets_escaped(s: Seq<char>) -> Seq<char>
    decreases s.len(),
{
    if s.len() == 0 {
        Seq::empty()
    } else {
        brackets_escaped(s.drop_last()) + bracket_entity(s.last())
    }
}

/// The text of a Markdown link to a post titled `title`.
pub open spec fn link_text_of(title: Seq<char>) -> Seq<char> {
    brackets_escaped(one_line_text(title))
}

/// The text of a Markdown link: on one line, with brackets escaped (a bracket
/// in a title would truncate the link wrapping it).
pub fn link_text(text: &str) -> (res: String)
    ensures
        res@ == link_text_of(text@),
{
    let folded = one_line(text);
    let cs = chars_of(folded.as_str());
    let mut out = String::new();
    let mut i: usize = 0;
    while i < cs.len()
        invariant
            cs@ == one_line_text(text@),
            i <= cs@.len(),
            out@ == brackets_escaped(cs@.take(i as int)),
        decreases cs@.len() - i,
    {
        let c = cs[i];
        assert(cs@.take(i + 1).drop_last() =~= cs@.take(i as int));
        if c == '[' {
            push_char(&mut out, '\\');
            push_char(&mut out, '[');
        } else if c == ']' {
            push_char(&mut out, '\\');
            push_char(&mut out, ']');
        } else {
            push_char(&mut out, c);
        }
        proof {
            assert(out@ =~= brackets_escaped(cs@.take(i + 1)));
        }
        i = i + 1;
    }
    assert(cs@.take(cs@.len() as int) =~= cs@);
    out
}

/// A routable page that exists whatever the database holds.
#[derive(Debug, Clone)]
pub struct SitePage {
    pub path: String,
    pub label: String,
    /// What llms.txt annotates the link with.
    pub description: String,
}

/// The static pages of the site, in the order the documents list them.
pub fn site_pages() -> (res: Vec<SitePage>)
    ensures
        res@.len() == 5,
        res@[0].path@ == "/"@,
        res@[0].label@ == "Home"@,
        res@[0].description@ == "Landing page: who I am, with links to my public profiles."@,
        res@[1].path@ == "/about"@,
        res@[1].label@ == "About"@,
        res@[1].description@ == "Background, what I work on, and how I approach engineering."@,
        res@[2].path@ == "/blog"@,
        res@[2].label@ == "Blog"@,
        res@[2].description@ == "Index of every published post."@,
        res@[3].path@ == "/experience"@,
        res@[3].label@ == "Experience"@,
        res@[3].description@ == "Professional experience, role by role."@,
        res@[4].path@ == "/projects"@,
        res@[4].label@ == "Projects"@,
        res@[4].description@ == "Selected personal and open-source projects."@,
{
    let mut res: Vec<SitePage> = Vec::new();
    res.push(
        SitePage {
            path: String::from_str("/"),
            label: String::from_str("Home"),
            description: String::from_str(
                "Landing page: who I am, with links to my public profiles.",
            ),
        },
    );
    res.push(
        SitePage {
            path: String::from_str("/about"),
            label: String::from_str("About"),
            description: String::from_str(
                "Background, what I work on, and how I approach engineering.",
            ),
        },
    );
    res.push(
        SitePage {
            path: String::from_str("/blog"),
            label: String::from_str("Blog"),
            description: String::from_str("Index of every published post."),
        },
    );
    res.push(
        SitePage {
            path: String::from_str("/experience"),
            label: String::from_str("Experience"),
            description: String::from_str("Professional experience, role by role."),
        },
    );
    res.push(
        SitePage {
            path: String::from_str("/projects"),
            label: String::from_str("Projects"),
            description: String::from_str("Selected personal and open-source projects."),
        },
    );
    res
}

/// The text of an optional string.
pub open spec fn text_of(o: Option<String>) -> Option<Seq<char>> {
    match o {
        Some(s) => Some(s@),
        None => None,
    }
}

/// The public URL of the post with slug `slug`, escaped for XML.
pub open spec fn post_location(site: Seq<char>, slug: Seq<char>) -> Seq<char> {
    site + "/blog/"@ + xml_escaped(slug)
}

/// The sitemap entry of a static page.
pub open spec fn sitemap_page_entry(site: Seq<char>, page: SitePage) -> Seq<char> {
    "<url><loc>"@ + site + page.path@ + "</loc></url>"@
}

/// The sitemap entry of a post, with its last modification if known.
pub open spec fn sitemap_post_entry(site: Seq<char>, slug: Seq<char>, lastmod: Option<Seq<char>>) -> Seq<char> {
    match lastmod {
        Some(modified) => "<url><loc>"@ + post_location(site, slug) + "</loc><lastmod>"@ + modified
            + "</lastmod></url>"@,
        None => "<url><loc>"@ + post_location(site, slug) + "</loc></url>"@,
    }
}

/// The opening of the sitemap document.
pub open spec fn sitemap_head() -> Seq<char> {
    "<?xml version=\"1.0\" encoding=\"UTF-8\"?><urlset xmlns=\"http://www.sitemaps.org/schemas/sitemap/0.9\">"@
}

/// The sitemap: every static page, then every post (with `lastmods[i]` the
/// last modification of `posts[i]`).
pub open spec fn sitemap_text(
    site: Seq<char>,
    pages: Seq<SitePage>,
    posts: Seq<BlogPostSummaryDTO>,
    lastmods: Seq<Option<Seq<char>>>,
) -> Seq<char> {
    sitemap_head() + concat(Seq::new(pages.len(), |i: int| sitemap_page_entry(site, pages[i])))
        + concat(
        Seq::new(posts.len(), |i: int| sitemap_post_entry(site, posts[i].slug@, lastmods[i])),
    ) + "</urlset>"@
}

fn sitemap_page_entry_exec(site: &str, page: &SitePage) -> (res: String)
    ensures
        res@ == sitemap_page_entry(site@, *page),
{
    let mut out = String::from_str("<url><loc>");
    out.append(site);
    out.append(page.path.as_str());
    out.append("</loc></url>");
    out
}

fn post_location_exec(site: &str, slug: &str) -> (res: String)
    ensures
        res@ == post_location(site@, slug@),
{
    let mut out = String::from_str(site);
    out.append("/blog/");
    let escaped = escape_xml(slug);
    out.append(escaped.as_str());
    out
}

fn sitemap_post_entry_exec(site: &str, slug: &str, lastmod: &Option<String>) -> (res: String)
    ensures
        res@ == sitemap_post_entry(site@, slug@, text_of(*lastmod)),
{
    let location = post_location_exec(site, slug);
    let mut out = String::from_str("<url><loc>");
    out.append(location.as_str());
    match lastmod {
        Some(modified) => {
            out.append("</loc><lastmod>");
            out.append(modified.as_str());
            out.append("</lastmod></url>");
        },
        None => {
            out.append("</loc></url>");
        },
    }
    out
}

/// The sitemap for the given site URL, static pages and posts, where
/// `lastmods[i]` is the last modification of `posts[i]`.
pub fn sitemap_xml(
    site_url: &str,
    pages: &[SitePage],
    posts: &[BlogPostSummaryDTO],
    lastmods: &[Option<String>],
) -> (res: String)
    requires
        lastmods@.len() == posts@.len(),
    ensures
        res@ == sitemap_text(
            site_url@,
            pages@,
            posts@,
            Seq::new(posts@.len(), |i: int| text_of(lastmods@[i])),
        ),
{
    let ghost page_parts = Seq::new(pages@.len(), |i: int| sitemap_page_entry(site_url@, pages@[i]));
    let ghost dates = Seq::new(posts@.len(), |i: int| text_of(lastmods@[i]));
    let ghost post_parts = Seq::new(
        posts@.len(),
        |i: int| sitemap_post_entry(site_url@, posts@[i].slug@, dates[i]),
    );
    let mut out = String::from_str(
        "<?xml version=\"1.0\" encoding=\"UTF-8\"?><urlset xmlns=\"http://www.sitemaps.org/schemas/sitemap/0.9\">",
    );
    let mut i: usize = 0;
    while i < pages.len()
        invariant
            i <= pages@.len(),
            page_parts.len() == pages@.len(),
            page_parts == Seq::new(pages@.len(), |i: int| sitemap_page_entry(site_url@, pages@[i])),
            out@ == sitemap_head() + concat(page_parts.take(i as int)),
        decreases pages@.len() - i,
    {
        let entry = sitemap_page_entry_exec(site_url, &pages[i]);
        out.append(entry.as_str());
        proof {
            lemma_concat_step(page_parts, i as int);
            assert(out@ =~= sitemap_head() + concat(page_parts.take(i + 1)));
        }
        i = i + 1;
    }
    assert(page_parts.take(pages@.len() as int) =~= page_parts);
    let ghost head = out@;
    let mut j: usize = 0;
    while j < posts.len()
        invariant
            j <= posts@.len(),
            lastmods@.len() == posts@.len(),
            dates == Seq::new(posts@.len(), |i: int| text_of(lastmods@[i])),
            post_parts == Seq::new(
                posts@.len(),
                |i: int| sitemap_post_entry(site_url@, posts@[i].slug@, dates[i]),
            ),
            out@ == head + concat(post_parts.take(j as int)),
        decreases posts@.len() - j,
    {
        let entry = sitemap_post_entry_exec(site_url, posts[j].slug.as_str(), &lastmods[j]);
        out.append(entry.as_str());
        proof {
            lemma_concat_step(post_parts, j as int);
            assert(out@ =~= head + concat(post_parts.take(j + 1)));
        }
        j = j + 1;
    }
    assert(post_parts.take(posts@.len() as int) =~= post_parts);
    out.append("</urlset>");
    out
}

/// The sitemap, each post's last modification being its `updated_at` in RFC 3339.
pub fn sitemap_document(site_url: &str, pages: &[SitePage], posts: &[BlogPostSummaryDTO]) -> (res:
    String)
    ensures
        res@ == sitemap_text(
            site_url@,
            pages@,
            posts@,
            Seq::new(posts@.len(), |i: int| rfc3339_text(posts@[i].updated_at)),
        ),
{
    let mut lastmods: Vec<Option<String>> = Vec::new();
    let mut i: usize = 0;
    while i < posts.len()
        invariant
            i <= posts@.len(),
            lastmods@.len() == i,
            forall|k: int| 0 <= k < i ==> text_of(#[trigger] lastmods@[k]) == rfc3339_text(posts@[k].updated_at),
        decreases posts@.len() - i,
    {
        lastmods.push(rfc3339(posts[i].updated_at));
        i = i + 1;
    }
    let res = sitemap_xml(site_url, pages, posts, lastmods.as_slice());
    assert(Seq::new(posts@.len(), |i: int| text_of(lastmods@[i])) =~= Seq::new(
        posts@.len(),
        |i: int| rfc3339_text(posts@[i].updated_at),
    ));
    res
}


/// The date a feed item carries: publication, else creation.
pub open spec fn item_timestamp(post: BlogPostSummaryDTO) -> i64 {
    match post.published_at {
        Some(t) => t,
        None => post.created_at,
    }
}

/// The opening of the RSS document.
pub open spec fn feed_head() -> Seq<char> {
    "<?xml version=\"1.0\" encoding=\"UTF-8\"?><rss version=\"2.0\" xmlns:atom=\"http://www.w3.org/2005/Atom\"><channel>"@
}

/// The channel description of the feed.
pub open spec fn feed_channel(site: Seq<char>, description: Seq<char>) -> Seq<char> {
    "<title>Ken Esparta - Blog</title><link>"@ + site + "/blog</link><description>"@
        + xml_escaped(description) + "</description><language>en</language><atom:link href=\""@
        + site + "/feed.xml\" rel=\"self\" type=\"application/rss+xml\"/>"@
}

/// The feed item of a post dated `date`.
pub open spec fn feed_item(site: Seq<char>, post: BlogPostSummaryDTO, date: Seq<char>) -> Seq<char> {
    let link = post_location(site, post.slug@);
    "<item><title>"@ + xml_escaped(post.title@) + "</title><link>"@ + link
        + "</link><guid isPermaLink=\"true\">"@ + link + "</guid><pubDate>"@ + date
        + "</pubDate><description>"@ + xml_escaped(post.summary@) + "</description></item>"@
}

/// The RSS 2.0 feed, `dates[i]` being the date of `posts[i]`.
pub open spec fn feed_text(
    site: Seq<char>,
    description: Seq<char>,
    posts: Seq<BlogPostSummaryDTO>,
    dates: Seq<Seq<char>>,
) -> Seq<char> {
    feed_head() + feed_channel(site, description) + concat(
        Seq::new(posts.len(), |i: int| feed_item(site, posts[i], dates[i])),
    ) + "</channel></rss>"@
}

fn feed_channel_exec(site: &str, description: &str) -> (res: String)
    ensures
        res@ == feed_channel(site@, description@),
{
    let mut out = String::from_str("<title>Ken Esparta - Blog</title><link>");
    out.append(site);
    out.append("/blog</link><description>");
    let escaped = escape_xml(description);
    out.append(escaped.as_str());
    out.append("</description><language>en</language><atom:link href=\"");
    out.append(site);
    out.append("/feed.xml\" rel=\"self\" type=\"application/rss+xml\"/>");
    out
}

fn feed_item_exec(site: &str, post: &BlogPostSummaryDTO, date: &str) -> (res: String)
    ensures
        res@ == feed_item(site@, *post, date@),
{
    let link = post_location_exec(site, post.slug.as_str());
    let title = escape_xml(post.title.as_str());
    let summary = escape_xml(post.summary.as_str());
    let mut out = String::from_str("<item><title>");
    out.append(title.as_str());
    out.append("</title><link>");
    out.append(link.as_str());
    out.append("</link><guid isPermaLink=\"true\">");
    out.append(link.as_str());
    out.append("</guid><pubDate>");
    out.append(date);
    out.append("</pubDate><description>");
    out.append(summary.as_str());
    out.append("</description></item>");
    out
}

/// The RSS 2.0 feed of the blog, `dates[i]` being the date of `posts[i]`.
pub fn feed_xml(
    site_url: &str,
    description: &str,
    posts: &[BlogPostSummaryDTO],
    dates: &[String],
) -> (res: String)
    requires
        dates@.len() == posts@.len(),
    ensures
        res@ == feed_text(
            site_url@,
            description@,
            posts@,
            Seq::new(posts@.len(), |i: int| dates@[i]@),
        ),
{
    let ghost ds = Seq::new(posts@.len(), |i: int| dates@[i]@);
    let ghost parts = Seq::new(posts@.len(), |i: int| feed_item(site_url@, posts@[i], ds[i]));
    let mut out = String::from_str(
        "<?xml version=\"1.0\" encoding=\"UTF-8\"?><rss version=\"2.0\" xmlns:atom=\"http://www.w3.org/2005/Atom\"><channel>",
    );
    let channel = feed_channel_exec(site_url, description);
    out.append(channel.as_str());
    let ghost head = out@;
    let mut j: usize = 0;
    while j < posts.len()
        invariant
            j <= posts@.len(),
            dates@.len() == posts@.len(),
            ds == Seq::new(posts@.len(), |i: int| dates@[i]@),
            parts == Seq::new(posts@.len(), |i: int| feed_item(site_url@, posts@[i], ds[i])),
            out@ == head + concat(parts.take(j as int)),
        decreases posts@.len() - j,
    {
        let item = feed_item_exec(site_url, &posts[j], dates[j].as_str());
        out.append(item.as_str());
        proof {
            lemma_concat_step(parts, j as int);
            assert(out@ =~= head + concat(parts.take(j + 1)));
        }
        j = j + 1;
    }
    assert(parts.take(posts@.len() as int) =~= parts);
    out.append("</channel></rss>");
    out
}

/// The RSS 2.0 feed of the blog, each item dated (RFC 2822) by its
/// publication, else its creation; an item whose date chrono cannot
/// represent gets an empty date. RFC 2822 only writes the years 0 to 9999.
pub fn feed_document(site_url: &str, description: &str, posts: &[BlogPostSummaryDTO]) -> (res:
    String)
    requires
        forall|i: int| 0 <= i < posts@.len() ==> rfc2822_writable(#[trigger] item_timestamp(posts@[i])),
    ensures
        res@ == feed_text(
            site_url@,
            description@,
            posts@,
            Seq::new(posts@.len(), |i: int| rfc2822_date(item_timestamp(posts@[i]))),
        ),
{
    let mut dates: Vec<String> = Vec::new();
    let mut i: usize = 0;
    while i < posts.len()
        invariant
            i <= posts@.len(),
            dates@.len() == i,
            forall|k: int| 0 <= k < posts@.len() ==> rfc2822_writable(#[trigger] item_timestamp(posts@[k])),
            forall|k: int| 0 <= k < i ==> (#[trigger] dates@[k])@ == rfc2822_date(item_timestamp(posts@[k])),
        decreases posts@.len() - i,
    {
        let ts = match posts[i].published_at {
            Some(t) => t,
            None => posts[i].created_at,
        };
        assert(ts == item_timestamp(posts@[i as int]));
        dates.push(rfc2822(ts));
        i = i + 1;
    }
    let res = feed_xml(site_url, description, posts, dates.as_slice());
    assert(Seq::new(posts@.len(), |i: int| dates@[i]@) =~= Seq::new(
        posts@.len(),
        |i: int| rfc2822_date(item_timestamp(posts@[i])),
    ));
    res
}


/// The llms.txt heading, summary and the start of the blog section.
pub open spec fn llms_intro(meta_description: Seq<char>, no_posts: bool) -> Seq<char> {
    "# Ken Esparta\n\n> "@ + one_line_text(meta_description) + "\n\n"@
        + "Personal site and blog. Every post below is also available as clean Markdown at its page URL plus a `.md` suffix — prefer those over the HTML pages.\n\n"@
        + "## Blog\n\n"@ + if no_posts {
        "No published posts yet.\n"@
    } else {
        Seq::empty()
    }
}

/// The llms.txt line of a post: a link to its Markdown variant and its summary.
pub open spec fn llms_post_line(site: Seq<char>, post: BlogPostSummaryDTO) -> Seq<char> {
    "- ["@ + link_text_of(post.title@) + "]("@ + site + "/blog/"@ + post.slug@ + ".md): "@
        + one_line_text(post.summary@) + "\n"@
}

/// The llms.txt line of a static page.
pub open spec fn llms_page_line(site: Seq<char>, page: SitePage) -> Seq<char> {
    "- ["@ + page.label@ + "]("@ + site + page.path@ + "): "@ + page.description@ + "\n"@
}

/// The llms.txt closing section: the feed and the sitemap.
pub open spec fn llms_optional(site: Seq<char>, blog_description: Seq<char>) -> Seq<char> {
    "\n## Optional\n\n"@ + "- [RSS feed]("@ + site + "/feed.xml): "@ + one_line_text(
        blog_description,
    ) + "\n- [Sitemap]("@ + site + "/sitemap.xml): Every indexable URL on the site.\n"@
}

/// `/llms.txt`, the llmstxt.org index: an H1, a blockquote summary, then
/// link lists under H2 headings. Posts link to their `.md` variants.
pub open spec fn llms_text(
    site: Seq<char>,
    meta_description: Seq<char>,
    blog_description: Seq<char>,
    pages: Seq<SitePage>,
    posts: Seq<BlogPostSummaryDTO>,
) -> Seq<char> {
    llms_intro(meta_description, posts.len() == 0) + concat(
        Seq::new(posts.len(), |i: int| llms_post_line(site, posts[i])),
    ) + "\n## Pages\n\n"@ + concat(Seq::new(pages.len(), |i: int| llms_page_line(site, pages[i])))
        + llms_optional(site, blog_description)
}

fn llms_post_line_exec(site: &str, post: &BlogPostSummaryDTO) -> (res: String)
    ensures
        res@ == llms_post_line(site@, *post),
{
    let title = link_text(post.title.as_str());
    let summary = one_line(post.summary.as_str());
    let mut out = String::from_str("- [");
    out.append(title.as_str());
    out.append("](");
    out.append(site);
    out.append("/blog/");
    out.append(post.slug.as_str());
    out.append(".md): ");
    out.append(summary.as_str());
    out.append("\n");
    out
}

fn llms_page_line_exec(site: &str, page: &SitePage) -> (res: String)
    ensures
        res@ == llms_page_line(site@, *page),
{
    let mut out = String::from_str("- [");
    out.append(page.label.as_str());
    out.append("](");
    out.append(site);
    out.append(page.path.as_str());
    out.append("): ");
    out.append(page.description.as_str());
    out.append("\n");
    out
}

/// The `/llms.txt` document.
pub fn llms_txt_document(
    site_url: &str,
    meta_description: &str,
    blog_description: &str,
    pages: &[SitePage],
    posts: &[BlogPostSummaryDTO],
) -> (res: String)
    ensures
        res@ == llms_text(site_url@, meta_description@, blog_description@, pages@, posts@),
{
    let ghost post_parts = Seq::new(posts@.len(), |i: int| llms_post_line(site_url@, posts@[i]));
    let ghost page_parts = Seq::new(pages@.len(), |i: int| llms_page_line(site_url@, pages@[i]));
    let summary = one_line(meta_description);
    let mut out = String::from_str("# Ken Esparta\n\n> ");
    out.append(summary.as_str());
    out.append("\n\n");
    out.append(
        "Personal site and blog. Every post below is also available as clean Markdown at its page URL plus a `.md` suffix — prefer those over the HTML pages.\n\n",
    );
    out.append("## Blog\n\n");
    if posts.len() == 0 {
        out.append("No published posts yet.\n");
    }
    assert(out@ =~= llms_intro(meta_description@, posts@.len() == 0));
    let ghost head = out@;
    let mut j: usize = 0;
    while j < posts.len()
        invariant
            j <= posts@.len(),
            post_parts == Seq::new(posts@.len(), |i: int| llms_post_line(site_url@, posts@[i])),
            out@ == head + concat(post_parts.take(j as int)),
        decreases posts@.len() - j,
    {
        let line = llms_post_line_exec(site_url, &posts[j]);
        out.append(line.as_str());
        proof {
            lemma_concat_step(post_parts, j as int);
            assert(out@ =~= head + concat(post_parts.take(j + 1)));
        }
        j = j + 1;
    }
    assert(post_parts.take(posts@.len() as int) =~= post_parts);
    out.append("\n## Pages\n\n");
    let ghost middle = out@;
    let mut i: usize = 0;
    while i < pages.len()
        invariant
            i <= pages@.len(),
            page_parts == Seq::new(pages@.len(), |i: int| llms_page_line(site_url@, pages@[i])),
            out@ == middle + concat(page_parts.take(i as int)),
        decreases pages@.len() - i,
    {
        let line = llms_page_line_exec(site_url, &pages[i]);
        out.append(line.as_str());
        proof {
            lemma_concat_step(page_parts, i as int);
            assert(out@ =~= middle + concat(page_parts.take(i + 1)));
        }
        i = i + 1;
    }
    assert(page_parts.take(pages@.len() as int) =~= page_parts);
    let blog = one_line(blog_description);
    out.append("\n## Optional\n\n");
    out.append("- [RSS feed](");
    out.append(site_url);
    out.append("/feed.xml): ");
    out.append(blog.as_str());
    out.append("\n- [Sitemap](");
    out.append(site_url);
    out.append("/sitemap.xml): Every indexable URL on the site.\n");
    assert(out@ =~= llms_text(site_url@, meta_description@, blog_description@, pages@, posts@));
    out
}

/// What the `/blog/<slug>.md` endpoint answers.
#[derive(Debug, Clone)]
pub enum MarkdownReply {
    /// 404: no such post, a draft, or no stored source.
    NotFound,
    /// 500: the lookup failed.
    Failed,
    /// 200 with this Markdown document.
    Document(String),
}

/// The document served for a post's Markdown variant: the title as an H1,
/// then the source (the title lives in the frontmatter, not the body).
pub open spec fn markdown_document_text(title: Seq<char>, content_md: Seq<char>) -> Seq<char> {
    "# "@ + title + "\n\n"@ + content_md
}

/// The answer of the `/blog/<slug>.md` endpoint for what the use case
/// returned. Drafts are public nowhere else, so they read as not found; so
/// does a post whose stored source is blank (it predates the source column).
pub fn markdown_reply(found: Result<Option<PostMarkdownDTO>, UseCaseError>) -> (res: MarkdownReply)
    ensures
        match found {
            Ok(Some(post)) => if post.status@ == "published"@ && trim(post.content_md@).len() > 0 {
                res matches MarkdownReply::Document(doc) && doc@ == markdown_document_text(
                    post.title@,
                    post.content_md@,
                )
            } else {
                res is NotFound
            },
            Ok(None) => res is NotFound,
            Err(_) => res is Failed,
        },
{
    match found {
        Ok(Some(post)) => {
            if !same_text(post.status.as_str(), "published") || is_blank(post.content_md.as_str()) {
                MarkdownReply::NotFound
            } else {
                let mut doc = String::from_str("# ");
                doc.append(post.title.as_str());
                doc.append("\n\n");
                doc.append(post.content_md.as_str());
                MarkdownReply::Document(doc)
            }
        },
        Ok(None) => MarkdownReply::NotFound,
        Err(_) => MarkdownReply::Failed,
    }
}


/// Whether `c` is a path separator as browsers read it (`/`, or `\` which
/// they fold to `/`).
pub open spec fn is_slash(c: char) -> bool {
    c == '/' || c == '\\'
}

/// Whether a request path gets the trailing-slash redirect: a non-root path
/// that ends with `/`.
pub open spec fn needs_redirect(path: Seq<char>) -> bool {
    path.len() > 1 && path.last() == '/'
}

/// Where a trailing-slash path redirects to: its text between the leading
/// and trailing separators, behind exactly one `/`.
pub open spec fn redirect_path(path: Seq<char>) -> Seq<char> {
    seq!['/'] + trim_by(path, |c: char| is_slash(c))
}

/// `target` with the query string, if any, appended after `?`.
pub open spec fn with_query(target: Seq<char>, query: Option<Seq<char>>) -> Seq<char> {
    match query {
        Some(q) => target + seq!['?'] + q,
        None => target,
    }
}

fn append_query(out: &mut String, query: Option<&str>)
    ensures
        final(out)@ == with_query(
            old(out)@,
            match query {
                Some(q) => Some(q@),
                None => None,
            },
        ),
{
    match query {
        Some(q) => {
            push_char(out, '?');
            out.append(q);
        },
        None => {},
    }
}

/// The `Location` of the permanent redirect that collapses a trailing slash
/// (`/blog/` to `/blog`), or `None` when the path needs none. Leading
/// separators collapse as well, so the target is always a same-origin path
/// (`//evil.com/` goes to `/evil.com`, never to another host).
pub fn trailing_slash_redirect(path: &str, query: Option<&str>) -> (res: Option<String>)
    ensures
        needs_redirect(path@) ==> (res matches Some(location) && location@ == with_query(
            redirect_path(path@),
            match query {
                Some(q) => Some(q@),
                None => None,
            },
        )),
        !needs_redirect(path@) ==> res is None,
{
    let cs = chars_of(path);
    let n = cs.len();
    if n > 1 && cs[n - 1] == '/' {
        let ghost p = |c: char| is_slash(c);
        let mut start: usize = 0;
        while start < n && (cs[start] == '/' || cs[start] == '\\')
            invariant
                n == cs@.len(),
                start <= n,
                forall|m: int| 0 <= m < start ==> is_slash(#[trigger] cs@[m]),
            decreases n - start,
        {
            start = start + 1;
        }
        let mut end: usize = n;
        while end > start && (cs[end - 1] == '/' || cs[end - 1] == '\\')
            invariant
                n == cs@.len(),
                start <= end <= n,
                forall|m: int| end <= m < n ==> is_slash(#[trigger] cs@[m]),
            decreases end,
        {
            end = end - 1;
        }
        proof {
            lemma_trim_by_bounds(cs@, p, start as int, end as int);
        }
        let body = string_of_range(&cs, start, end);
        let mut location = String::new();
        push_char(&mut location, '/');
        location.append(body.as_str());
        append_query(&mut location, query);
        Some(location)
    } else {
        None
    }
}

/// The redirect settles in one step and stays on this site: its target path
/// starts with exactly one `/` (so no protocol-relative `//host`) and does
/// not itself get redirected.
pub proof fn lemma_redirect_settles(path: Seq<char>)
    requires
        needs_redirect(path),
    ensures
        redirect_path(path)[0] == '/',
        redirect_path(path).len() > 1 ==> !is_slash(redirect_path(path)[1]),
        !needs_redirect(redirect_path(path)),
{
    let p = |c: char| is_slash(c);
    let body = trim_by(path, p);
    lemma_trim_by_edges(path, p);
    let t = redirect_path(path);
    assert(t =~= seq!['/'] + body);
    if body.len() > 0 {
        assert(t[1] == body[0]);
        assert(t.last() == body.last());
    }
}

/// The slug of a `/blog/<slug>.md` path: non-empty, without `/`.
pub open spec fn markdown_slug(path: Seq<char>) -> Option<Seq<char>> {
    let prefix = "/blog/"@;
    let suffix = ".md"@;
    if path.len() >= prefix.len() + suffix.len() && path.take(prefix.len() as int) == prefix
        && path.skip(path.len() - suffix.len()) == suffix {
        let slug = path.subrange(prefix.len() as int, path.len() - suffix.len());
        if slug.len() > 0 && !slug.contains('/') {
            Some(slug)
        } else {
            None
        }
    } else {
        None
    }
}

/// The internal path that `/blog/<slug>.md` is rewritten to before routing
/// (`/blog-md/<slug>`, query kept), or `None` for any other path: the router
/// cannot express a dynamic segment with a literal suffix.
pub fn markdown_rewrite(path: &str, query: Option<&str>) -> (res: Option<String>)
    ensures
        match markdown_slug(path@) {
            Some(slug) => res matches Some(target) && target@ == with_query(
                "/blog-md/"@ + slug,
                match query {
                    Some(q) => Some(q@),
                    None => None,
                },
            ),
            None => res is None,
        },
        markdown_slug(path@) is Some ==> (res matches Some(target) && target@ == match query {
            Some(q) => "/blog-md/"@ + markdown_slug(path@).unwrap() + seq!['?'] + q@,
            None => "/blog-md/"@ + markdown_slug(path@).unwrap(),
        }),
{
    let cs = chars_of(path);
    let prefix = chars_of("/blog/");
    let suffix = chars_of(".md");
    let n = cs.len();
    if n < prefix.len() || n - prefix.len() < suffix.len() {
        return None;
    }
    let end = n - suffix.len();
    if !matches_at(&cs, 0, "/blog/") || !matches_at(&cs, end, ".md") {
        proof {
            assert(cs@.take(prefix@.len() as int) =~= cs@.subrange(0, prefix@.len() as int));
            assert(cs@.skip(end as int) =~= cs@.subrange(end as int, end + suffix@.len()));
        }
        return None;
    }
    proof {
        assert(cs@.take(prefix@.len() as int) =~= cs@.subrange(0, prefix@.len() as int));
        assert(cs@.skip(end as int) =~= cs@.subrange(end as int, end + suffix@.len()));
    }
    let start = prefix.len();
    let mut i = start;
    while i < end
        invariant
            cs@ == path@,
            start == "/blog/"@.len(),
            end == path@.len() - ".md"@.len(),
            markdown_slug(path@) == (if cs@.subrange(start as int, end as int).len() > 0
                && !cs@.subrange(start as int, end as int).contains('/') {
                Some(cs@.subrange(start as int, end as int))
            } else {
                None
            }),
            start <= i <= end <= cs@.len(),
            forall|m: int| start <= m < i ==> cs@[m] != '/',
        decreases end - i,
    {
        if cs[i] == '/' {
            proof {
                let slug = cs@.subrange(start as int, end as int);
                assert(slug[i - start] == '/');
                assert(slug.contains('/'));
            }
            return None;
        }
        i = i + 1;
    }
    if start == end {
        return None;
    }
    proof {
        let slug = cs@.subrange(start as int, end as int);
        assert forall|m: int| 0 <= m < slug.len() implies slug[m] != '/' by {
            assert(slug[m] == cs@[m + start]);
        }
    }
    let slug = string_of_range(&cs, start, end);
    let mut target = String::from_str("/blog-md/");
    target.append(slug.as_str());
    append_query(&mut target, query);
    Some(target)
}


/// Every `/blog/<slug>.md` path with a non-empty slug free of `/` names that
/// slug (and so is rewritten to `/blog-md/<slug>`), and a path names a slug
/// only when it is exactly `/blog/` + slug + `.md` with such a slug.
pub proof fn lemma_markdown_slug_paths(path: Seq<char>, slug: Seq<char>)
    ensures
        slug.len() > 0 && !slug.contains('/') ==> markdown_slug("/blog/"@ + slug + ".md"@)
            == Some(slug),
        markdown_slug(path) == Some(slug) ==> path == "/blog/"@ + slug + ".md"@ && slug.len() > 0
            && !slug.contains('/'),
{
    reveal_strlit("/blog/");
    reveal_strlit(".md");
    let p = "/blog/"@ + slug + ".md"@;
    assert(p.take(6) =~= "/blog/"@);
    assert(p.skip(p.len() - 3) =~= ".md"@);
    assert(p.subrange(6, p.len() - 3) =~= slug);
    if markdown_slug(path) == Some(slug) {
        assert(path =~= path.take(6) + path.subrange(6, path.len() - 3) + path.skip(path.len() - 3));
    }
}

/// Escaped text holds no `<`, `>` or `"`: it cannot open or close markup or
/// end an attribute value.
pub proof fn lemma_xml_escaped_is_inert(s: Seq<char>)
    ensures
        !xml_escaped(s).contains('<'),
        !xml_escaped(s).contains('>'),
        !xml_escaped(s).contains('"'),
    decreases s.len(),
{
    reveal_strlit("&amp;");
    reveal_strlit("&lt;");
    reveal_strlit("&gt;");
    reveal_strlit("&quot;");
    if s.len() > 0 {
        lemma_xml_escaped_is_inert(s.drop_last());
        let a = xml_escaped(s.drop_last());
        let b = xml_entity(s.last());
        assert forall|i: int| 0 <= i < (a + b).len() implies (a + b)[i] != '<' && (a + b)[i] != '>'
            && (a + b)[i] != '"' by {
            if i >= a.len() {
                assert((a + b)[i] == b[i - a.len()]);
            } else {
                assert((a + b)[i] == a[i]);
            }
        }
        assert(xml_escaped(s) == a + b);
    }
}


/// The text an XML parser reads from character data: the entities `&amp;`,
/// `&lt;`, `&gt;` and `&quot;` stand for their characters, every other
/// character for itself.
pub open spec fn xml_unescaped(s: Seq<char>) -> Seq<char>
    decreases s.len(),
{
    if s.len() == 0 {
        Seq::empty()
    } else if seq!['&', 'a', 'm', 'p', ';'].is_prefix_of(s) {
        seq!['&'] + xml_unescaped(s.skip(5))
    } else if seq!['&', 'l', 't', ';'].is_prefix_of(s) {
        seq!['<'] + xml_unescaped(s.skip(4))
    } else if seq!['&', 'g', 't', ';'].is_prefix_of(s) {
        seq!['>'] + xml_unescaped(s.skip(4))
    } else if seq!['&', 'q', 'u', 'o', 't', ';'].is_prefix_of(s) {
        seq!['"'] + xml_unescaped(s.skip(6))
    } else {
        seq![s[0]] + xml_unescaped(s.skip(1))
    }
}

/// Whether one of the four entities starts at position `i` of `s`.
pub open spec fn entity_at(s: Seq<char>, i: int) -> bool {
    ||| "&amp;"@.is_prefix_of(s.skip(i))
    ||| "&lt;"@.is_prefix_of(s.skip(i))
    ||| "&gt;"@.is_prefix_of(s.skip(i))
    ||| "&quot;"@.is_prefix_of(s.skip(i))
}

proof fn lemma_entity_texts()
    ensures
        "&amp;"@ == seq!['&', 'a', 'm', 'p', ';'],
        "&lt;"@ == seq!['&', 'l', 't', ';'],
        "&gt;"@ == seq!['&', 'g', 't', ';'],
        "&quot;"@ == seq!['&', 'q', 'u', 'o', 't', ';'],
{
    reveal_strlit("&amp;");
    reveal_strlit("&lt;");
    reveal_strlit("&gt;");
    reveal_strlit("&quot;");
    assert("&amp;"@ =~= seq!['&', 'a', 'm', 'p', ';']);
    assert("&lt;"@ =~= seq!['&', 'l', 't', ';']);
    assert("&gt;"@ =~= seq!['&', 'g', 't', ';']);
    assert("&quot;"@ =~= seq!['&', 'q', 'u', 'o', 't', ';']);
}

/// Escaping distributes over concatenation.
proof fn lemma_xml_escaped_concat(a: Seq<char>, b: Seq<char>)
    ensures
        xml_escaped(a + b) == xml_escaped(a) + xml_escaped(b),
    decreases b.len(),
{
    if b.len() == 0 {
        assert(a + b =~= a);
        assert(xml_escaped(a) + xml_escaped(b) =~= xml_escaped(a));
    } else {
        lemma_xml_escaped_concat(a, b.drop_last());
        assert((a + b).drop_last() =~= a + b.drop_last());
        assert((a + b).last() == b.last());
        assert(xml_escaped(a + b) =~= xml_escaped(a) + xml_escaped(b));
    }
}

/// Reading back the entity of a character gives the character.
proof fn lemma_unescape_entity(c: char, rest: Seq<char>)
    ensures
        xml_unescaped(xml_entity(c) + rest) == seq![c] + xml_unescaped(rest),
{
    lemma_entity_texts();
    let t = xml_entity(c) + rest;
    if c == '&' {
        assert(t.skip(5) =~= rest);
    } else if c == '<' {
        assert(t.skip(4) =~= rest);
    } else if c == '>' {
        assert(t.skip(4) =~= rest);
    } else if c == '"' {
        assert(t.skip(6) =~= rest);
    } else {
        assert(t[0] == c);
        assert(t.skip(1) =~= rest);
    }
}

/// Decoding escaped text gives the text back: what an XML parser reads from
/// an escaped title or summary is exactly the title or summary itself.
pub proof fn lemma_xml_round_trip(s: Seq<char>)
    ensures
        xml_unescaped(xml_escaped(s)) == s,
    decreases s.len(),
{
    if s.len() > 0 {
        let rest = s.skip(1);
        assert(seq![s[0]] + rest =~= s);
        lemma_xml_escaped_concat(seq![s[0]], rest);
        let one = seq![s[0]];
        assert(one.drop_last() =~= Seq::<char>::empty());
        assert(one.last() == s[0]);
        assert(xml_escaped(one) == xml_escaped(one.drop_last()) + xml_entity(one.last()));
        assert(xml_escaped(Seq::<char>::empty()) + xml_entity(s[0]) =~= xml_entity(s[0]));
        lemma_unescape_entity(s[0], xml_escaped(rest));
        lemma_xml_round_trip(rest);
    }
}

proof fn lemma_prefix_extends(p: Seq<char>, x: Seq<char>, y: Seq<char>)
    requires
        p.is_prefix_of(x),
    ensures
        p.is_prefix_of(x + y),
{
    assert((x + y).subrange(0, p.len() as int) =~= x.subrange(0, p.len() as int));
}

/// Every `&` of escaped text starts one of the four entities, so the text
/// holds no stray reference an XML parser would reject.
pub proof fn lemma_xml_escaped_ampersands(s: Seq<char>)
    ensures
        forall|i: int|
            0 <= i < xml_escaped(s).len() && #[trigger] xml_escaped(s)[i] == '&' ==> entity_at(
                xml_escaped(s),
                i,
            ),
    decreases s.len(),
{
    lemma_entity_texts();
    if s.len() > 0 {
        lemma_xml_escaped_ampersands(s.drop_last());
        let a = xml_escaped(s.drop_last());
        let b = xml_entity(s.last());
        let r = a + b;
        assert(xml_escaped(s) == r);
        assert forall|i: int| 0 <= i < r.len() && #[trigger] r[i] == '&' implies entity_at(r, i) by {
            if i < a.len() {
                assert(r[i] == a[i]);
                assert(entity_at(a, i));
                assert(r.skip(i) =~= a.skip(i) + b);
                if "&amp;"@.is_prefix_of(a.skip(i)) {
                    lemma_prefix_extends("&amp;"@, a.skip(i), b);
                } else if "&lt;"@.is_prefix_of(a.skip(i)) {
                    lemma_prefix_extends("&lt;"@, a.skip(i), b);
                } else if "&gt;"@.is_prefix_of(a.skip(i)) {
                    lemma_prefix_extends("&gt;"@, a.skip(i), b);
                } else {
                    lemma_prefix_extends("&quot;"@, a.skip(i), b);
                }
            } else {
                assert(r[i] == b[i - a.len()]);
                assert(i == a.len());
                assert(r.skip(i) =~= b);
            }
        }
    }
}

/// Text without `&`, `<`, `>` or `"` is its own escape.
pub proof fn lemma_xml_plain_unchanged(s: Seq<char>)
    requires
        !s.contains('&'),
        !s.contains('<'),
        !s.contains('>'),
        !s.contains('"'),
    ensures
        xml_escaped(s) == s,
    decreases s.len(),
{
    if s.len() > 0 {
        let init = s.drop_last();
        assert forall|c: char| init.contains(c) implies s.contains(c) by {
            let k = choose|k: int| 0 <= k < init.len() && init[k] == c;
            assert(s[k] == c);
        }
        lemma_xml_plain_unchanged(init);
        assert(s[s.len() - 1] == s.last());
        assert(init.push(s.last()) =~= s);
    }
}

/// Every bracket of the escaped text follows a backslash, so a title
/// cannot close the Markdown link that wraps it.
pub proof fn lemma_brackets_escaped(s: Seq<char>)
    ensures
        forall|i: int|
            0 <= i < brackets_escaped(s).len() && (#[trigger] brackets_escaped(s)[i] == '['
                || brackets_escaped(s)[i] == ']') ==> i > 0 && brackets_escaped(s)[i - 1] == '\\',
    decreases s.len(),
{
    if s.len() > 0 {
        lemma_brackets_escaped(s.drop_last());
        let a = brackets_escaped(s.drop_last());
        let b = bracket_entity(s.last());
        let r = a + b;
        assert(brackets_escaped(s) == r);
        assert forall|i: int| 0 <= i < r.len() && (#[trigger] r[i] == '[' || r[i] == ']') implies i > 0
            && r[i - 1] == '\\' by {
            if i < a.len() {
                assert(r[i] == a[i]);
                assert(r[i - 1] == a[i - 1]);
            } else {
                assert(r[i] == b[i - a.len()]);
                if i - a.len() == 1 {
                    assert(r[i - 1] == b[0]);
                }
            }
        }
    }
}

} // verus!
