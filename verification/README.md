# chess_material_studio

The logic of a chess-puzzle studio (solving Lichess puzzles, reviewing PGN
files, exporting puzzle sets to PGN and PDF, organising editorial projects)
written in Verus, with its behaviour stated in `requires` / `ensures`
contracts and proved.

## Layout

- `src/` is the verified library.
  - `chess_rules.rs` gives the rules of chess from the `chess` crate, behind
    small wrappers whose contracts name what the crate computes.
  - `puzzle_play.rs` is the puzzle solver (loading a puzzle, checking a
    move, counting puzzles, validating a batch); `studio.rs` adds the
    requests of the application around it (searches, favourites, clicks,
    navigation, analysis); `board_view.rs` says how the board is drawn
    (orientation, square colours, pieces, highlights).
  - `pgn_import.rs` parses PGN text; `pgn_review.rs` and `pgn_tab.rs` walk
    the games of a file.
  - `export.rs` writes SAN and PGN and plans the pages of a PDF sheet.
  - `eval.rs` holds the UCI protocol: commands, `info` lines, the start-up
    handshake and the engine's life cycle.
  - `project.rs`, `favorites.rs`, `download.rs`, `coordination.rs` hold the
    decisions around the project files, favourites, the puzzle download and
    the requests that may answer late.
  - `import_args.rs`, `search_args.rs`, `chunk_benchmark.rs` read the
    command lines of the command-line tools.
  - `text.rs` and `models.rs` are shared helpers and the puzzle record.
- `tests/` runs the library on concrete values.
- `app/` is the unverified shell: files, the PDF writer, the engine
  process, decompression and the command line.
