# Pleiades Explorer

A tabbed file explorer. The library in `src/` holds its logic, verified with
Verus; `app/` is the egui window around it.

- `src/tab.rs`: one tab's navigation history (back, forward, up, go to),
  its listing and its case-insensitive filter.
- `src/app.rs`: the open tabs, the active one, closed tabs and reopening,
  moving tabs, the saved session, breadcrumbs, and the `Request`s a frame
  hands to `ExplorerApp::apply`, with the outside work each leaves.
- `src/fs_entry.rs`: listing order, icons, the size column and the
  modified-time column.
- `src/path.rs`, `src/text.rs`, `src/number.rs`: paths, characters and
  decimal text.
- `src/settings.rs`, `src/sidebar.rs`, `src/theme.rs`, `src/icon.rs`:
  settings, sidebar places, the starfield's random numbers, and decoding and
  framing the window icon.

The window reads folders, saves the session as JSON, draws the starfield and
talks to the system (opening files, the recycle bin, the clipboard); after a
request that moves a tab it lists that tab's folder again and hands the
listing to the library as one more request.
