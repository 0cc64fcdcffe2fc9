# playlist

Builds Spotify playlists from small Scheme scripts: a script names tracks and albums
(optionally filtered to some of their tracks), and the program fills the playlist, and an
archive copy if asked for, with exactly those tracks in order.

## Layout

- `src/` — the library, verified with Verus.
  - `shuffle.rs`: recipes of loose tracks and groups; a shuffle keeps every track and
    never splits a group.
  - `catalog.rs`: the service's tracks and albums as plain values; album filters,
    popularity ranking (a stable sort), artist filtering, playable identifiers.
  - `criteria.rs`: album and track search criteria, playlist descriptions and builders.
  - `paging.rs`: page windows, first match by name, batching of edits and lookups.
  - `run.rs`: the state machine that decides which request comes next and collects the
    tracks; the caller performs each request and hands back the answer.
  - `optimizer.rs`: the pairwise-swap search that fits a track order to an energy curve.
  - `text.rs`, `seqs.rs`, `random.rs`: text comparison, permutation lemmas, shuffling.
- `app/` — the program: authentication, the Steel engine, the requests to the service,
  and the floating-point fit measure.
- `tests/` — tests of the library.
