# Nix Software Center — verified core

The decision logic of a graphical app store for Nix, written in Verus and
proved against its contracts. The library holds what the application decides
and computes; reading files, the package database, the network and the screen
is left to the program around it.

## Layout

- `src/scheme.rs` — `nixpkg://` and `appstream://` URIs and the command line.
- `src/text.rs` — text helpers: summaries on one line, AppStream descriptions
  as Pango markup, ordering of texts, decimal numbers.
- `src/html_lead.rs` — what an HTML parser skips at the start of a text
  before it opens the `html` element, and whether a comment comes first.
- `src/packages.rs` — AppStream records, the index of applications by
  package, and the compressed AppStream collection split into documents.
- `src/license.rs` — licenses from the nixpkgs license field and the SPDX list.
- `src/package.rs`, `src/package_page.rs`, `src/details.rs` — the package page:
  install type, platforms, links, screenshots, releases and the queue of
  install and remove work.
- `src/search.rs` — search terms, result rows, their ranking and the search page.
- `src/installed.rs`, `src/update.rs` — installed packages, busy marks, update
  rows, unavailable packages and the installed and update pages.
- `src/browse.rs`, `src/carousel.rs` — category and explore pages, tiles, the
  featured carousel.
- `src/release.rs`, `src/screenshots.rs` — release ages, screenshot cache files
  and thumbnails.
- `src/system.rs`, `src/preferences.rs`, `src/window.rs`, `src/provider.rs` —
  package management of the system, preferences and saved state, the main
  window, and the desktop search provider.
- `tests/` — tests of the library on concrete values.
- `app/` — a command-line front end: reads the AppStream collection and the
  saved state and prints what the pages would show.
