# xiangqi_rim

The core of a xiangqi (Chinese chess) engine, written in Verus with its
behaviour stated as contracts and proved.

- `src/board`: squares, bitboards, pieces, positions with Zobrist hashing,
  moves made and taken back, FEN reading, checking and writing (with the
  proofs that a written legal position reads back as itself and that a
  checked record in canonical form writes back as itself), the repetition
  arbiter and magic-number tables.
- `src/book`: the opening book (sorted entries, binary search, learnt moves),
  endgame material rules with learnt scores, and the XRBK book file format.
- `src/eval`: the network evaluation (feature indices, weights, incremental
  accumulators, the quantised layers, weight file reading), the Bloom filter
  of positions, the pawn terms of the handcrafted evaluation and the front
  end that picks between them behind a circuit breaker.
- `src/circuit`: the circuit breaker, score checks and feature switches.
- `src/cqrs`: commands, queries and events over a bounded FIFO queue and an
  event store.
- `src/gpu`: the host side of the GPU batch evaluator: memory accounting,
  framed ring buffers, batches of samples, kernel bookkeeping, the routing
  of batches between GPU and CPU and the CPU fallback scoring.
- `app/`: hardware detection and the wgpu context, the GPU pass, the CUDA
  library loader, and file input and output.
- `tests/`: scenario tests, one per behaviour, run against the compiled
  library.

Not included: the trap, hanging-piece, king-safety and mobility terms of the
handcrafted evaluation (and the terms it gathers from its tactical systems),
probing the opening book from a position, and reading JSONL books. Each of
them rests on move-generation tables, a tactical system or a UCI move parser
that this source tree does not contain, so the front end takes the
handcrafted score as an argument and `app/` answers a JSONL book with an
"unsupported" error.
