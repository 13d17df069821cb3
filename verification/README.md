# cute

The decisions of the Cute language tool chain, as a library whose behaviour is
stated in contracts and proved by Verus.

Cute is a language for Qt 6. Its tool chain parses sources, checks them, writes
C++ together with the meta-object code that `moc` would write, plans a CMake
project, and keeps bindings to Qt's own classes. This library holds what that
tool chain decides and computes. It reads no file, runs no program and looks at
no variable of the environment: what they say comes in as plain values, and what
is to be written comes out as plain values.

- `src/` is the library. `src/lib.rs` lists its modules.
- `tests/` runs it.
- `app/` is the program around it: the command line, files, processes, manifests
  in TOML, diagnostics on the terminal, and headers read by libclang. The lexer,
  parser, type checker and code generator are packages of their own, which the
  program reaches through the trait in `app/front.rs`. Among its bundled files,
  `templates/agents.toml` may name agents besides Cursor and Codex, each with a
  `name`, a `dir` below the home directory, a `file`, a `head` and a `note`; the
  search for sources passes over their directories.

Three facts are taken from the standard library without proof: that
`String::push` appends a character, what `char::to_uppercase` gives for ASCII
characters, and that the `Debug` form of a string depends on the string alone.
