# chord_shifter

A chord-sheet library verified with Verus: songs made of named parts
(chord grids, guitar / bass / drum tabs, lyrics), transposition and capo
shifts with key-aware spelling, note-naming conventions, tab rendering and
the tab-cell editor, the song editor's actions, key signatures and staff
positions, sheet layout decisions, a browser-style song store, password
hashing and the account rules of the sync server.

- `src/` — the verified library: `song` (model, theory, tabs, editor
  actions, export plan, laws), `sheet`, `staff`, `store`, `auth`, `server`,
  `text`. Contracts are stated over spec views of each type; the laws
  (round trips, transposition algebra, hash-then-verify,
  encrypt-then-decrypt, save-then-read, capo range, cell-text round trip)
  are proof functions.
- `tests/` — executable tests of the library.
- `app/` — a small command-line front end: JSON (de)serialisation of songs
  through serde copies of the library types, and PDF export with printpdf.
