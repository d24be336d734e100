# javasynth

Generates the Java source of an AWS CDK stack class from the intermediate
representation of a CloudFormation template, with its behaviour stated and
proved in Verus.

- `src/text.rs` — text primitives (decimal rendering, search, join, repeat,
  ASCII case folding) and the calls into `voca_rs` and std whose results are
  named rather than defined.
- `src/code.rs` — the code buffer: pieces of text and nested indented blocks,
  and the layout model that `render` is proved against.
- `src/ir.rs` — the template's intermediate representation.
- `src/debug.rs` — the `Debug` rendering of resource values.
- `src/expr.rs` — Java expressions for references and conditions.
- `src/emit.rs` — Java expressions for resource values.
- `src/java.rs` — the synthesizer: header, constructors, parameters,
  mappings, conditions, resources, outputs and the whole file.
- `src/laws.rs` — properties of rendering and of the generated code.
- `src/layout.rs` — how pieces turn into indented lines of text: the text
  each piece adds under the blocks open around it.
- `src/listing.rs` — the rendered text of each part of a generated class
  (constructors, parameter defaults, output fields and getters, resources,
  outputs, the whole file), proved from the layout model.
- `app/lib.rs` — writing the generated source to an `io::Write`.
