# nshell core

The verified core of the nshell game engine, written in Verus.

- `src/` is the library. Every function in it carries a contract, and Verus
  proves all of them but those of the few wrappers around `histogram`, `zstd`
  and `String::push`, which are trusted. It holds the OBJ and MTL line grammars and the models built from them
  (`lexer`, `common`, `obj`, `obj_roundtrip`, `mtl`, `model`), the UDP sync
  protocol's messages, sequence numbers, acknowledgements and world-update
  batches (`bytes`, `seq`, `message`, `peer`, `wire`), controller input and
  the mapping of window-system events (`input`, `events`), plugin reload
  bookkeeping (`plugin`), loggers (`logger`), and small renderer helpers
  (`render`, `font`, `executor`).
- `tests/` runs the library on concrete values.
- `app/` is the command-line program around the library: it reads files,
  talks to sockets, watches plugin builds and turns exact decimals into
  floating point.

Numbers in OBJ and MTL files are kept as exact decimals; `app/` converts them
to `f32` where a renderer needs them.
