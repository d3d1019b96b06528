# kenespartadev

The verified core of the kenesparta.dev personal site and blog, written in
Verus.

`src/` is the library. Every function of it is verified, except the small
trusted wrappers around outside calls described below:

- `model`, `status`, `dto`, `errors`, `kernel`: the blog's domain model (posts,
  listing projections, wire forms, errors, fresh ids and the clock).
- `use_cases`: what each use case answers for what the persistence port
  returned (drafts are never served by slug), and the post an upsert writes.
- `seo`: the crawler documents (sitemap, RSS feed, llms.txt, the Markdown
  variants) and the URL normalisation done before routing.
- `telemetry`: the access log's decisions and CloudFront header decoding.
- `ingest`: Markdown files with TOML frontmatter to upsert commands, and the
  ingest tool's arguments.
- `dynamo`: posts to and from DynamoDB attribute maps (with a round-trip proof),
  with the backend's and the site's error messages.
- `postgres`: what the PostgreSQL adapter decides before a query (uuid keys,
  timestamps chrono can represent).
- `listing`, `post_index`, `ui`, `dates`, `text`, `configuration`: the rest.

Calls into `chrono`, `uuid`, `pulldown-cmark` and a few std functions go
through these wrappers (marked `#[verifier::external_body]`); Verus takes
their contracts, stated next to them, on trust.

`app/` is the server and the ingest tool (axum, sqlx, tokio, tracing, Leptos):
routing, SQL, file reading, logging and the page views. It hands plain values
to the library and acts on what the library decides; the serde and thiserror
derives sit on copies of the library's types there. `tests/` exercises the
library with the real outside crates linked.
