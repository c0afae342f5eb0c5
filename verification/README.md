# eFM

A desktop internet radio: a card with what is playing, a drawer with the
station list, a search of the radio-browser directory, ten palettes, and a
reconnect that never gives up on a station that dropped.

## Layout

- `src/` is the verified library, one module per concern:
  - `config` — the station list and the rules by which it changes (remember,
    add, import, export, rename, forget), with the laws that an exported list
    reads back as it was and that an import only ever appends.
  - `player` — the playback status, what is playing, and how the station's
    headers and ICY metadata fill that in.
  - `search` — the directory address of a search, how its answer becomes the
    result rows, and the tick boxes of the search window.
  - `recovery` — when a dropped stream is fetched back and how long the wait is.
  - `session` — what the window decides: each user action, the reconnect
    watch, the sleep lock and the notes, as steps that say what the
    application has to do.
  - `display` — the words of the card, the rows, the counters and the buttons.
  - `theme` — the palettes and the choice among them.
  - `icon` — the icon tiers, and the `.ico` file written and read back.
  - `text` — the string helpers the rest is built on.
- `app/` is the program around it: the window and its painting, the audio
  engine, the directory request, the settings file and the icon drawing.
- `tests/` runs the library on concrete values.
