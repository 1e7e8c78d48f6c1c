# church_presenter

The verified core of a church presentation program: Scripture lookup, the
presenter's state (verse and song selection, live slides, screen modes, themes),
the decisions behind drawing slides and broadcasting them over NDI, and the
handling of media files and paths.

- `src/` — the library, verified with Verus:
  - `text` — string operations with their specifications (trimming, splitting,
    number parsing and formatting, line splitting, prefixes and suffixes);
  - `scripture` — reading references, cleaning verse text, and the verse query as a
    state machine that asks its caller for database answers;
  - `presenter` — the presenter's state and every change the window makes to it;
  - `search` — the search entry: completing book names, the right arrow, jumps;
  - `render` — backgrounds, text plans, fade and frame timing, the image cache;
  - `wrap` — word wrapping driven by measured line widths;
  - `media` — imported media: kinds, destinations, ffmpeg arguments, thumbnails;
  - `paths` — the saves directory, the databases and the user data directory.
- `tests/` — tests of the library, including a verse query run against a small
  SQLite Bible.
- `app/` — the GTK window, the SQLite storage, the NDI output thread and `main`.
