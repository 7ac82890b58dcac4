# tui-news

A keyboard-first RSS/Atom news reader for the terminal: feeds, stories and a
reader pane, vim keys, unread tracking and a local SQLite store.

The reader's logic is a Verus library under `src/`, proved against its
contracts:

- `text`, `html` — string helpers, tag stripping, entity decoding, one-line
  titles and the HTML-to-text rendering of story bodies;
- `model`, `fetch`, `store` — feeds, stories, the catalogue of popular feeds,
  reading a parsed feed into stories, feed URLs, and the story query;
- `script` — display units for complex scripts (Sinhala conjuncts), widths,
  ellipsis and wrapping;
- `timefmt` — story ages and the header clock;
- `app` — the reader's state and what each key does, as a state machine that
  asks for outside work through `Action`s;
- `ui` — what the screen shows: offsets, rows, labels, the reader body, and
  the placement of shaped text into terminal cells.

`app/` is the terminal program around it: the database, the network, the
keyboard, and the drawing with ratatui. `tests/` exercise the library.
