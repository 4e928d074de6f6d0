# twicbook_builder

A single-pass filter that turns large PGN collections into a clean,
opening-focused PGN file: header filters (Elo floor, variant, start
position), legality checking of the mainline through `shakmaty`, truncation
to the first N plies, a PlyCount cross-check, deduplication by position
(Zobrist) or by move sequence (FNV-1a), and PGN output.

The library in `src/` is verified with Verus:

- `text`: byte-level trimming (ASCII and Unicode whitespace), decimal
  parsing and printing.
- `tags`: the tag names the library works with.
- `filter`: Elo, variant and start-position tag filters; rejection reasons.
- `cli`: run settings, their defaults, the built-in roster.
- `roster`: which tags are written, and in which order; which are captured.
- `pgn`: header value decoding (`pgn-reader`) and lossy UTF-8.
- `chess`: the chess rules used, through `shakmaty` (opaque positions).
- `visitor`: per-game decisions — header capture, header verdict, move
  validation and truncation, end-of-game verdict.
- `dedup`: FNV-1a and the dedup key.
- `render`: writing a kept game as PGN, with the proofs about escaping and
  line width.
- `stats`: counters and their report.
- `pipeline`: what happens to each finished game, and which files are read.

`app/main.rs` is the program around it: argument parsing (`clap`), file
discovery (`walkdir`), decompression and compression (`zstd`), the
`pgn-reader` visitor, worker threads and the output writer.
