# sample_site

Server-rendered pages of a small site (a navigation bar over pages stored in
a database, markdown page content with an editor, and a photo gallery driven
by htmx), written in Verus.

- `src/` is the verified library. Every page-building function states the
  exact HTML it returns as a composition of the spec functions in
  `src/html.rs` (`element`, `attribute`, `escape`, ...). Text spliced into a
  page is escaped with maud's escaper, markdown is rendered by the
  `markdown` crate, and the proof functions next to the definitions state the
  laws: escaped text holds no markup and reads back to the same text, the
  gallery buttons stay inside the gallery and undo each other, the gallery
  marks exactly the image on screen, and the navigation lists the pages in order.
- `app/main.rs` is the axum server: routes, database queries (sqlx),
  environment settings, Clerk client and request logging.
- `tests/` runs the library on concrete pages.
