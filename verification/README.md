# digipin

India Post DIGIPIN codes, with the discrete part of the algorithm verified in Verus.

- `src/grid.rs`: the 4 x 4 symbol grid, lookup of a symbol's position, and the
  proof that lookup and grid read each other back.
- `src/text.rs`: the std character operations used (white space, ASCII upper
  case, pushing a char), with their contracts.
- `src/code.rs`: compaction, normalization to `XXX-XXX-XXXX`, validation, error
  messages, and the laws of normalization (idempotence, insensitivity to case,
  spacing and hyphens, canonical shape).
- `src/path.rs`: the grid position chosen at each level of encoding, writing a
  ten-level path as a code, reading the path back from a code, and the
  round-trip laws between the two.
- `app/`: the command line and the floating-point side (coordinates, bounding
  boxes, cell subdivision), which calls the library for every grid and text step.
