# nicoyomi

A web server for browsing MangaDex and downloading chapters as Kindle e-books.

- `src/` is the verified library (Verus): the MangaDex records and the rules
  that pick titles, descriptions and tag names per locale (`mangadex`), natural
  ordering of volumes and chapters (`natural`, over the `natord` crate), link
  texts (`slug`, over the `regex` crate), request addresses and file paths
  (`requests`), the chapter download steps and the cover download steps as
  state machines (`chapter`, `cover_download`), the
  page decisions (`pages`), the log filter (`logging`) and the service errors
  (`error`).
- `app/` is the program around it: the actix-web handlers and pages, the HTTP
  client with its rate limit, JSON decoding, files, the external `mangadex-dl`
  and `ebook-convert` tools, and logging setup.
- `tests/` runs the library on concrete values.
