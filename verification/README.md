# shogi_engine

A shogi engine library written in Verus: every function in `src/` carries a
`requires`/`ensures` contract proved by the verifier.

- `types`, `bitboards`, `sfen`, `moves`: pieces, squares, the 81-square board, SFEN
  positions, and legal move generation (board moves, drops, promotions).
- `position_command`: the USI `position` command (start position or SFEN, then the
  moves played from it).
- `evaluation`: material, tapered interpolation and game phase, position features,
  opening principles, endgame patterns, tactical and positional patterns, the
  evaluation cache, and configuration helpers.
- `opening_book`: book moves and positions, the LRU-cached book with lazily decoded
  positions, and the binary book format (`binary_format` writes and reads it,
  `round_trip` proves that reading gives back what was written).
- `opening_book_converter`: converts JSON openings into a book.
- `kif_parser`: reads KIF game records.

`app/` holds what runs around the library: the USI command loop, file access, JSON
(serde), platform detection, the profiler guard and the floating-point reports of the
evaluation cache (rates, summaries, the status report and the wording of its advice).
