# rego_sql

Rego rules compiled to SQL, with the compiler verified by Verus.

A rule of the form `rule contains var if { ... }` whose body ranges over tables
(`some user in data.users`) becomes a SQL query: its conditions filter or join the
tables, and its object literals name the projected columns.

## Layout

- `src/ast.rs`, `src/ast_text.rs`: the Rego rules that can be translated, and their
  expressions as error messages show them.
- `src/sql_ir.rs`, `src/model.rs`, `src/copies.rs`: the SQL intermediate
  representation, its builder, its mathematical model, and copies of it.
- `src/translation.rs`: what a rule means in SQL, as a mathematical function.
- `src/rego_to_sql_ir.rs`, `src/calls.rs`, `src/joining.rs`: the translator, proved to
  compute that function.
- `src/render.rs`, `src/sql_codegen.rs`: the SQL text of a query, and the generator,
  proved to write it.
- `src/sql_optimizer.rs`: the optimizer.
- `src/errors.rs`: why a rule cannot be translated.
- `src/text.rs`, `src/floats.rs`, `src/string_map.rs`: strings, the decimal texts of
  floats, and maps keyed by strings.
- `src/*_laws.rs`: what holds of the library as a whole.
  - Literals read back from their text.
  - The text of plain arithmetic reads back to the value it had. A negated operation
    is written without brackets, so `-(a + b)` is left out.
  - An optimised pipeline does what it did, on every abstract engine on which the
    last of two neighbouring projections counts. This speaks of pipelines, not of
    their text.
  - A condition of a rule joins tables, in the ON clause of the last table it refers
    to, or filters rows, and not both. An equality of two columns of the first of
    several tables does neither: it is left out.
  - Pretty and compact text differ in white space alone, where no nested query
    stands in brackets on lines of its own.
- `app/`: the binary form of queries, machine floats and standard errors.

Floating-point numbers are held as their decimal texts. The case mappings of
Unicode are taken from the standard library.
