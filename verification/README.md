# m3utohtml

Turns an m3u playlist into an HTML page: each track becomes a card filled in from a
line template, each artist a card with data from Last.fm, and the page is framed by a
header, a playlist heading and a tail.

## Layout

- `src/` is the library, verified with Verus.
  - `parser.rs`: the template language (`{$track}`, `{@name}`, `{!playlist}`,
    `{^cover}`, `{%css}`, backslash escapes), with its mathematical definition and
    the laws of a line: a line without braces is copied, a single variable is
    replaced by its value, an unclosed or unopened brace fails the line.
  - `logic.rs`: track and artist cards and the whole page, with the lines that
    failed.
  - `lastfm.rs`: the request links and the reading of Last.fm's XML answers
    (through `quick-xml`, whose reader is modelled by what it gives for a text after
    the reads made on it), and the decoding of the artist summary (through
    `html-escape`).
  - `model.rs`, `lists.rs`, `config.rs`, `database.rs`, `playlist.rs`, `error.rs`,
    `text.rs`: tracks, artists and albums; the lists a page is made of; the
    command-line settings and where templates are looked for; the queries on VLC's
    media library; the lines of a playlist file; the errors; string helpers.
- `tests/`: tests of the library on concrete values.
- `app/`: the program around the library: command line, files, network, database,
  and the GTK window.
