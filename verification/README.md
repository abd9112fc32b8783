# blog_cms

The backend of a personal blog's content management app: posts, series, history,
trash and tags kept in local tables; publishing to Cloudflare (Markdown and images in
R2, metadata in D1); scheduled publishing; syncing in both directions with conflicts
settled by a person; usage and readership figures; and an endpoint through which an
assistant can draft, while publishing waits for approval.

`src/` is the verified library. Each operation says in its contract what it does to the
tables, given as a mathematical value, and what it returns or refuses. Work that needs
files or the network is cut into steps: the library decides and records, and the caller
moves files and makes requests in between. Laws that relate several operations stand
beside them as proof functions.

- `table`, `db`, `entities`: the tables, their rows, and everything that reads or writes
  them; `db/mirror` is the refresh from the cloud and `db/refresh_laws` what it keeps.
- `commands`: what the app offers.
- `sync_state`, `digest`, `revisions`: fingerprints, and the history of posts.
- `frontmatter`, `export`, `media_keys`, `media_usage`, `body_search`, `imaging`: files
  in and out.
- `cloudflare`, `d1`, `auth`, `analytics`, `traffic`: the cloud.
- `mcp`: the endpoint.

`app/` is the program round it: SQLite, files, HTTP, the keychain and the endpoint's
listener. Commands come in as lines of JSON on the standard input.
