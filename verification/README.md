# retromount

The logic of a virtual filesystem for retro game collections, verified with Verus:
the content model, the readers that project sectors and byte ranges, the output
plan, the rules that compile a declarative presentation into a plan, the
presenters, capability resolution, the encoders, the encoder plugin protocol and
its validation, and the materialization of a plan into a virtual file tree.

Layout:

- `src/` is the verified library. `model/` holds the content, source, CD, reader
  and virtual file models; `readers/` the random-access readers; `output/` plans,
  presentations, encoders, plugins and materialization; `policy/` the naming,
  formatting and conflict policies; `text.rs` the string helpers the rest is
  specified with.
- `tests/` runs the library on concrete values.
- `app/` does what the library leaves to the outside world: opening files, ZIP
  archives and CHD images, running plugin processes, and reading and writing the
  JSON and YAML forms of the protocol and of presentation files.
