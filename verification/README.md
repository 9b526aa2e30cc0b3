# diario

A diary of the tasks done by AI agents: each entry belongs to an application and
holds the prompt, a summary and the markdown answer. The server keeps them in
SQLite, serves a REST API and a web page, forwards MCP tool calls to the REST API,
and writes each entry once as a markdown file into its application's repository.

## Layout

- `src/` is the verified library (Verus). It holds the logic of the diary:
  slugs, query strings and their round trip, the filters and paging of a query,
  the checks on a new entry, API key hashing and token shape, the markdown of an
  entry and of a thread, file names, routes of the web page, grouping by day,
  snippets, stored dates (RFC 3339 or SQLite's `YYYY-MM-DD HH:MM:SS`), the texts
  of the web page, the authorisation decisions and the export decisions.
  Calls into `chrono`, `sha2`, `rand`, `serde_urlencoded` and `ammonia` (HTML
  sanitising) stand behind small
  trusted wrappers whose contracts are stated in their doc comments.
- `tests/` runs the library on concrete values.
- `app/` is the program around it: command line, HTTP server (axum), SQLite
  storage (rusqlite), the MCP bridge (rmcp), markdown rendering (comrak, then
  the library's sanitising), the exporter's file writing and the serde forms of the types.
