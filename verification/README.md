# musictui2

A terminal music player that finds audio files in GitHub repositories and
WebDAV collections, keeps a SHA-256-keyed cache of them, and plays them,
streaming a track into the cache while it plays.

The decisions of the player are a verified library (`src/`); the program
around it (`app/`) does the terminal, audio, network, database and disk
work and hands the library plain values.

## Layout

- `src/text.rs`: character-sequence helpers (search, split, trim, decimal
  text) used by the parsers.
- `src/models.rs`: repositories, tracks, playback state, source kinds.
- `src/credentials.rs`: credential stores (in memory and the OS keyring) and
  how tokens and WebDAV passwords are resolved.
- `src/errors.rs`: GitHub, WebDAV and cache errors and their messages.
- `src/cache.rs`: cache file names, entry probing, size accounting and the
  cleanup plan (least recently modified files go first), and the progress of a download streamed into the cache.
- `src/github.rs`: raw download URLs, Git tree and contents scans, and the
  retry policy of API requests.
- `src/webdav.rs`: PROPFIND parsing, URL normalization and the collection
  walk.
- `src/schema.rs`: which schema migrations an older database needs.
- `src/cli.rs`: repository identifiers and the checks and filters of the
  command line.
- `src/tui/`: playback modes, list filters, search, selection and
  scrolling helpers, the screen's text, and the interactive state machine
  (`tui/app.rs`) that answers keys, ticks and finished work with commands.
- `app/`: the binary: argument parsing, SQLite storage, HTTP clients, the
  disk cache, audio output and the terminal loop.
- `tests/`: tests of the library.
