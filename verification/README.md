# theguardian_rss_bot

A bot that reads The Guardian's world-news RSS feed, remembers in a Turso
(libSQL) key-value table when it last ran, and posts the articles published
since then to Mastodon, oldest first.

- `src/` is the verified library (Verus): text handling (`text`), dates read
  and written with chrono (`dates`), the feed and the order of its items
  (`feed`), which items are posted and the text of each post (`post`), JSON
  lookups in database replies (`json`), the Turso statements, pipeline and
  reply (`turso`), the Mastodon status request (`mastodon`) and the parts of
  an HTTP address (`http`).
- `app/` is the program around it: environment, clock, the WASI HTTP client,
  serde's (de)serialisation of the pipeline, and the loop that performs the
  planned posts.
- `tests/` runs the library on concrete values.
