//! The ingest path: a Markdown file with TOML frontmatter becomes an upsert
//! command. Reading the files and parsing the TOML happen at the edge.

use vstd::prelude::*;
use vstd::string::{StrSliceExecFns, StringExecFns};

use crate::dates::{parse_rfc3339_seconds, rfc3339_parse};
use crate::text::{chars_of, lemma_trim_start_skip, matches_at, starts_with, trim_start_by};
use crate::use_cases::UpsertPostCommand;

verus! {

/// The author of a post whose frontmatter names none.
pub fn default_author() -> (res: String)
    ensures
        res@ == "Ken Esparta"@,
{
    String::from_str("Ken Esparta")
}

/// The first index at or after `i` where `pat` occurs in `s`.
pub open spec fn find_from(s: Seq<char>, pat: Seq<char>, i: int) -> Option<int>
    decreases s.len() + 1 - i,
{
    if i < 0 || i + pat.len() > s.len() {
        None
    } else if s.subrange(i, i + pat.len()) == pat {
        Some(i)
    } else {
        find_from(s, pat, i + 1)
    }
}

/// The frontmatter and the body of a post file: the file starts with a
/// `+++` fence, the frontmatter runs to the first `\n+++`, and the body
/// follows that fence without its leading newlines.
pub open spec fn frontmatter_parts(raw: Seq<char>) -> Result<(Seq<char>, Seq<char>), Seq<char>> {
    if !"+++"@.is_prefix_of(raw) {
        Err("file must start with a `+++` frontmatter fence"@)
    } else {
        let rest = raw.skip(3);
        match find_from(rest, "\n+++"@, 0) {
            None => Err("unclosed `+++` frontmatter fence"@),
            Some(end) => Ok((rest.take(end), trim_start_by(rest.skip(end + 4), |c: char| c == '\n'))),
        }
    }
}

/// Splits `+++\n<toml>\n+++` from the Markdown body.
pub fn split_frontmatter(raw: &str) -> (res: Result<(&str, &str), String>)
    ensures
        match frontmatter_parts(raw@) {
            Ok((front, body)) => res matches Ok((f, b)) && f@ == front && b@ == body,
            Err(e) => res matches Err(msg) && msg@ == e,
        },
{
    proof {
        reveal_strlit("+++");
        reveal_strlit("\n+++");
    }
    let cs = chars_of(raw);
    if !starts_with(raw, "+++") {
        return Err(String::from_str("file must start with a `+++` frontmatter fence"));
    }
    let ghost rest = raw@.skip(3);
    let n = cs.len();
    let mut j: usize = 0;
    assert(rest.len() == n - 3);
    while n - 3 - j >= 4 && !matches_at(&cs, 3 + j, "\n+++")
        invariant
            cs@ == raw@,
            n == cs@.len(),
            n >= 3,
            rest == raw@.skip(3),
            "\n+++"@.len() == 4,
            j <= n - 3,
            find_from(rest, "\n+++"@, 0) == find_from(rest, "\n+++"@, j as int),
        decreases n - j,
    {
        assert(cs@.subrange(3 + j, 3 + j + 4) =~= rest.subrange(j as int, j + 4));
        j = j + 1;
    }
    if n - 3 - j < 4 {
        return Err(String::from_str("unclosed `+++` frontmatter fence"));
    }
    assert(cs@.subrange(3 + j, 3 + j + 4) =~= rest.subrange(j as int, j + 4));
    assert(find_from(rest, "\n+++"@, 0) == Some(j as int));
    let mut k: usize = 3 + j + 4;
    while k < n && cs[k] == '\n'
        invariant
            cs@ == raw@,
            n == cs@.len(),
            3 + j + 4 <= k <= n,
            forall|m: int| 3 + j + 4 <= m < k ==> #[trigger] cs@[m] == '\n',
        decreases n - k,
    {
        k = k + 1;
    }
    proof {
        let tail = rest.skip(j + 4);
        let off = k - (3 + j + 4);
        assert forall|m: int| 0 <= m < off implies (|c: char| c == '\n')(#[trigger] tail[m]) by {
            assert(tail[m] == cs@[m + 3 + j + 4]);
        }
        if off < tail.len() {
            assert(tail[off] == cs@[k as int]);
        }
        lemma_trim_start_skip(tail, |c: char| c == '\n', off);
        assert(tail.skip(off) =~= raw@.subrange(k as int, n as int));
        assert(rest.take(j as int) =~= raw@.subrange(3, 3 + j));
    }
    let front = raw.substring_char(3, 3 + j);
    let body = raw.substring_char(k, n);
    Ok((front, body))
}

/// What `pulldown_cmark` renders a Markdown document to, with tables,
/// footnotes and strikethrough enabled.
pub uninterp spec fn markdown_html(markdown: Seq<char>) -> Seq<char>;

/// Calls `pulldown_cmark::html::push_html` on a parser over `markdown` with
/// tables, footnotes and strikethrough enabled; the HTML is left to the name
/// `markdown_html`.
#[verifier::external_body]
pub(crate) fn render_markdown(markdown: &str) -> (res: String)
    ensures
        res@ == markdown_html(markdown@),
{
    let options = pulldown_cmark::Options::ENABLE_TABLES | pulldown_cmark::Options::ENABLE_FOOTNOTES
        | pulldown_cmark::Options::ENABLE_STRIKETHROUGH;
    let mut out = String::new();
    pulldown_cmark::html::push_html(&mut out, pulldown_cmark::Parser::new_ext(markdown, options));
    out
}

/// Publication status as the frontmatter writes it; drafts by default, so
/// nothing goes public by omission.
#[derive(Debug, Clone, Copy, PartialEq, Eq, Structural)]
pub enum Status {
    Draft,
    Published,
}

/// The TOML frontmatter of a post file.
#[derive(Debug, Clone)]
pub struct Frontmatter {
    pub title: String,
    pub summary: String,
    /// RFC 3339, e.g. "2026-07-21T00:00:00Z": the creation date, and the
    /// publication date when published.
    pub date: String,
    pub author: String,
    pub tags: Vec<String>,
    pub status: Status,
    /// Defaults to the file stem; set it to rename the file without
    /// breaking the URL (the slug is the upsert key).
    pub slug: Option<String>,
}

/// Whether `cmd` is the command built from the frontmatter `fm`, the body,
/// the slug and the date.
pub open spec fn is_command_for(
    cmd: UpsertPostCommand,
    fm: Frontmatter,
    body: Seq<char>,
    slug: Seq<char>,
    date: i64,
    content_html: Seq<char>,
) -> bool {
    &&& cmd.title == fm.title
    &&& cmd.slug@ == slug
    &&& cmd.content_html@ == content_html
    &&& cmd.content_md@ == body
    &&& cmd.summary == fm.summary
    &&& cmd.author == fm.author
    &&& cmd.tags == fm.tags
    &&& cmd.published == (fm.status == Status::Published)
    &&& cmd.date == date
}

/// A command built from frontmatter carries each of its text fields in the
/// field of the same name, the body as its Markdown source, and is published
/// exactly when the frontmatter says so.
pub proof fn lemma_command_copies_frontmatter(
    cmd: UpsertPostCommand,
    fm: Frontmatter,
    body: Seq<char>,
    slug: Seq<char>,
    date: i64,
    content_html: Seq<char>,
)
    requires
        is_command_for(cmd, fm, body, slug, date, content_html),
    ensures
        cmd.title == fm.title,
        cmd.summary == fm.summary,
        cmd.author == fm.author,
        cmd.tags == fm.tags,
        cmd.slug@ == slug,
        cmd.content_md@ == body,
        cmd.content_html@ == content_html,
        cmd.date == date,
        cmd.published <==> fm.status == Status::Published,
{
}

/// The slug of a post: the frontmatter's, else the file stem.
pub open spec fn slug_of(fm: Frontmatter, file_stem: Option<Seq<char>>) -> Option<Seq<char>> {
    match fm.slug {
        Some(s) => Some(s@),
        None => file_stem,
    }
}

/// The upsert command for a post file, given the outcome of parsing its
/// date and its rendered body. A date that is not RFC 3339 is refused first,
/// then a post with neither a slug nor a readable file name.
pub fn assemble_command(
    fm: Frontmatter,
    body: &str,
    file_stem: Option<String>,
    date: Result<i64, String>,
    content_html: String,
) -> (res: Result<UpsertPostCommand, String>)
    ensures
        match date {
            Err(e) => res matches Err(msg) && msg@ == "invalid `date` (want RFC 3339): "@ + e@,
            Ok(t) => match slug_of(
                fm,
                match file_stem {
                    Some(s) => Some(s@),
                    None => None,
                },
            ) {
                None => res matches Err(msg) && msg@ == "file name is not valid UTF-8"@,
                Some(slug) => res matches Ok(cmd) && is_command_for(
                    cmd,
                    fm,
                    body@,
                    slug,
                    t,
                    content_html@,
                ),
            },
        },
        res matches Ok(cmd) ==> cmd.title == fm.title && cmd.summary == fm.summary && cmd.author
            == fm.author && cmd.tags == fm.tags && cmd.content_md@ == body@ && cmd.published == (
        fm.status == Status::Published),
        res matches Ok(cmd) ==> match fm.slug {
            Some(s) => cmd.slug@ == s@,
            None => file_stem matches Some(stem) && cmd.slug@ == stem@,
        },
{
    let date = match date {
        Ok(t) => t,
        Err(e) => {
            let mut msg = String::from_str("invalid `date` (want RFC 3339): ");
            msg.append(e.as_str());
            return Err(msg);
        },
    };
    let slug = match fm.slug {
        Some(slug) => slug,
        None => match file_stem {
            Some(stem) => stem,
            None => {
                return Err(String::from_str("file name is not valid UTF-8"));
            },
        },
    };
    Ok(
        UpsertPostCommand {
            title: fm.title,
            slug,
            content_html,
            content_md: String::from_str(body),
            summary: fm.summary,
            author: fm.author,
            tags: fm.tags,
            published: fm.status == Status::Published,
            date,
        },
    )
}

/// The upsert command for a post file: its frontmatter, its body (the
/// source served back verbatim by the `.md` variants) and its file stem, if
/// readable. The date is parsed as RFC 3339 and the body rendered to HTML.
pub fn post_command(fm: Frontmatter, body: &str, file_stem: Option<String>) -> (res: Result<
    UpsertPostCommand,
    String,
>)
    ensures
        match rfc3339_parse(fm.date@) {
            Err(e) => res matches Err(msg) && msg@ == "invalid `date` (want RFC 3339): "@ + e,
            Ok(t) => match slug_of(
                fm,
                match file_stem {
                    Some(s) => Some(s@),
                    None => None,
                },
            ) {
                None => res matches Err(msg) && msg@ == "file name is not valid UTF-8"@,
                Some(slug) => res matches Ok(cmd) && is_command_for(
                    cmd,
                    fm,
                    body@,
                    slug,
                    t,
                    markdown_html(body@),
                ),
            },
        },
        res matches Ok(cmd) ==> cmd.title == fm.title && cmd.summary == fm.summary && cmd.author
            == fm.author && cmd.tags == fm.tags && cmd.content_md@ == body@ && cmd.published == (
        fm.status == Status::Published),
        res matches Ok(cmd) ==> match fm.slug {
            Some(s) => cmd.slug@ == s@,
            None => file_stem matches Some(stem) && cmd.slug@ == stem@,
        },
{
    let date = parse_rfc3339_seconds(fm.date.as_str());
    let html = render_markdown(body);
    assemble_command(fm, body, file_stem, date, html)
}

/// Arguments of the ingest tool: the content directory and whether to
/// prune posts whose file is gone.
#[derive(Debug, Clone)]
pub struct IngestArgs {
    pub dir: String,
    pub prune: bool,
}

/// The usage error for an unknown flag.
pub open spec fn unknown_flag_message(flag: Seq<char>) -> Seq<char> {
    "unknown flag `"@ + flag + "` (usage: ingest [content-dir] [--prune])"@
}

/// The ingest arguments read left to right: `--prune` sets pruning, any
/// other argument starting with `-` is refused, anything else names the
/// content directory (the last one wins; `content/posts` by default).
pub open spec fn ingest_args_outcome(args: Seq<Seq<char>>) -> Result<(Seq<char>, bool), Seq<char>>
    decreases args.len(),
{
    if args.len() == 0 {
        Ok(("content/posts"@, false))
    } else {
        match ingest_args_outcome(args.drop_last()) {
            Err(e) => Err(e),
            Ok((dir, prune)) => {
                let arg = args.last();
                if arg == "--prune"@ {
                    Ok((dir, true))
                } else if arg.len() > 0 && arg[0] == '-' {
                    Err(unknown_flag_message(arg))
                } else {
                    Ok((arg, prune))
                }
            },
        }
    }
}

/// Once an argument is refused, later ones do not matter.
proof fn lemma_refusal_sticks(args: Seq<Seq<char>>, k: int)
    requires
        0 <= k <= args.len(),
        ingest_args_outcome(args.take(k)) is Err,
    ensures
        ingest_args_outcome(args) == ingest_args_outcome(args.take(k)),
    decreases args.len() - k,
{
    if k == args.len() {
        assert(args.take(k) =~= args);
    } else {
        assert(args.take(k + 1).drop_last() =~= args.take(k));
        lemma_refusal_sticks(args, k + 1);
    }
}

/// Reads the ingest tool's arguments (program name excluded).
pub fn parse_ingest_args(args: &[String]) -> (res: Result<IngestArgs, String>)
    ensures
        match ingest_args_outcome(args@.map_values(|a: String| a@)) {
            Ok((dir, prune)) => res matches Ok(parsed) && parsed.dir@ == dir && parsed.prune
                == prune,
            Err(e) => res matches Err(msg) && msg@ == e,
        },
{
    let ghost all = args@.map_values(|a: String| a@);
    let mut dir = String::from_str("content/posts");
    let mut prune = false;
    let mut i: usize = 0;
    while i < args.len()
        invariant
            i <= args@.len(),
            all == args@.map_values(|a: String| a@),
            ingest_args_outcome(all.take(i as int)) == Ok::<(Seq<char>, bool), Seq<char>>((dir@, prune)),
        decreases args@.len() - i,
    {
        let arg = args[i].as_str();
        proof {
            assert(all.take(i + 1).drop_last() =~= all.take(i as int));
            assert(all.take(i + 1).last() == arg@);
        }
        if crate::text::same_text(arg, "--prune") {
            prune = true;
        } else if starts_with(arg, "-") {
            proof {
                reveal_strlit("-");
                assert(arg@.subrange(0, 1)[0] == arg@[0]);
                assert("-"@[0] == '-');
            }
            let mut msg = String::from_str("unknown flag `");
            msg.append(arg);
            msg.append("` (usage: ingest [content-dir] [--prune])");
            assert(ingest_args_outcome(all.take(i + 1)) == Err::<(Seq<char>, bool), Seq<char>>(
                unknown_flag_message(arg@),
            ));
            proof {
                lemma_refusal_sticks(all, i + 1);
            }
            return Err(msg);
        } else {
            proof {
                reveal_strlit("-");
                assert(!("-"@.is_prefix_of(arg@)) ==> !(arg@.len() > 0 && arg@[0] == '-')) by {
                    if arg@.len() > 0 && arg@[0] == '-' {
                        assert(arg@.subrange(0, 1) =~= "-"@);
                    }
                }
            }
            dir = String::from_str(arg);
        }
        i = i + 1;
    }
    assert(all.take(args@.len() as int) =~= all);
    Ok(IngestArgs { dir, prune })
}

/// What the ingest tool does with the Markdown files it found.
#[derive(Debug, Clone, Copy, PartialEq, Eq)]
pub enum IngestPlan {
    /// No file was found: nothing is written, and nothing is pruned, so an
    /// empty or mistyped content directory never wipes the table.
    NothingToDo,
    /// Upsert every file, then, when `prune` is set, delete the posts whose
    /// slug is not among them.
    Upsert { prune: bool },
}

/// The plan for `file_count` Markdown files under the given arguments.
pub fn plan_ingest(file_count: usize, args: &IngestArgs) -> (res: IngestPlan)
    ensures
        file_count == 0 ==> res == IngestPlan::NothingToDo,
        file_count > 0 ==> res == (IngestPlan::Upsert { prune: args.prune }),
        res == (IngestPlan::Upsert { prune: true }) ==> file_count > 0,
{
    if file_count == 0 {
        IngestPlan::NothingToDo
    } else {
        IngestPlan::Upsert { prune: args.prune }
    }
}

} // verus!
