# rustic

A chess engine library verified with Verus.

- `src/` is the verified library: bitboards and attack tables (`attacks`,
  `sliders`, `geometry`, `masks`, `magics`, `movements`), move encoding and
  pseudo-legal move generation (`movegen`), FEN reading (`fen`), material,
  phase and piece-square evaluation (`evaluation`), draw and result
  detection (`misc::result`), move and square parsing (`misc::parse`,
  `interface::console`), the search's decisions and bookkeeping (`search`,
  `engine`), magic number search and the tuner's data file reading
  (`extra`).
- `tests/` runs the library on concrete positions and values.
- `app/` is the program around it: command line, printing, threads and
  the parts that compute with floating point.
