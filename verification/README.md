# physure

The verified core of Physure, a language and engine for physical quantities:
rational unit dimensions and their algebra, unit registries and aliases,
settings and uncertainty-mode scopes, measurement lineage ids, dimensional
inference over symbolic expressions, covariance-block pruning, and the decisions
of the `phs` command line (argument handling, routing and authentication of the
model server, the debugger's prompt, the terminal dashboard's key handling, the
HTML/LaTeX report text, base64, exports and scaffolding).

- `src/` is the library, written in Verus; every function there carries a
  contract and is proved.
- `tests/` exercises the library on concrete values.
- `app/` is the `phs` program around the library: file and network I/O, the
  terminal UI, JSON, and calls into the PhysureScript interpreter.
