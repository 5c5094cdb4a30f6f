# kyoku

The verified core of a small music server: which files it indexes, what it
records of a FLAC file, the conversation with the database that adds a song,
the requests it makes of Spotify, and how its HTTP endpoints read their
parameters and word their errors.

- `src/` is the library, verified with Verus.
  - `text.rs`: decimal rendering and parsing, splitting and joining, hex.
  - `index/metadata.rs`: file types by extension; FLAC tags to metadata and to
    the report line of a scanned track.
  - `index/db.rs`: `SongIndexer`, the state machine that adds a song (artists,
    album with its cover art, song), with its laws.
  - `index/spotify.rs`: search URLs, the authorization header, the image choice.
  - `index/mod.rs`: what file system events lead to.
  - `api/`: records, path ids, album assembly, error answers, search records.
- `app/` is the program around it: the HTTP server, the database queries, file
  system scanning and watching, reading FLAC tags, and the HTTP clients.
- `tests/` exercises the library on concrete values.
