# const_typed_builder_derive

The logic of the `Builder` derive, verified with Verus: reading the
`#[builder(...)]` and `#[group(...)]` attributes, classifying fields, checking
groups, finding the choices of grouped fields that every group accepts, and
writing the target's `Builder` impl, the builder (constructor, one setter per
field, `build`) and the data struct as Rust source text.

Layout:

- `src/model.rs`: the derive input as plain values (tokens of attribute
  arguments, types, generics, fields), each piece carrying a span number.
- `src/parser/`: the attribute argument grammar (`meta.rs`) and the readers of
  group definitions, field attributes and the container.
- `src/info/`: fields, groups and the container once read.
- `src/generator/`: the renderings of generics, the flags of the builder's
  type, the brute-force search over group choices (`solver.rs`) and the three
  code generators.
- `src/diagnostic.rs`: what the derive reports, as values pointing at spans.
- `app/lib.rs`: the compiler-facing side: `syn` input to the model, spans,
  messages, and the generated text back to tokens.

Outside crates: `convert_case` (snake case of names), `itertools`
(`powerset`) and `syn` (the values of string and integer literals) are called
from the library through trusted wrappers; `syn`, `quote` and `proc-macro2`
are also used by `app/` and the tests.
