# sbrd_gen

Schema-based random data generation, with its logic proved by Verus.

A schema names the keys to output and a list of generators, each with a key.
Generators run in order; formats and scripts can refer to the values
generated before them as `{key}`. The library builds generators from their
descriptions, checks schemas, fills templates, evaluates scripts and
generates rows; the command-line program reads a schema in YAML or JSON and
writes the rows as JSON, YAML, CSV or TSV.

Layout:

- `src/` — the verified library:
  - `value.rs`, `context.rs`, `text.rs`: values, the value context, and
    integer texts;
  - `builder/`: generator descriptions, ranges, steps, nullability;
  - `eval.rs`: templates and scripts;
  - `generator/`: the generators, and the tree of generators of any kind;
  - `schema.rs`, `error.rs`, `writer.rs`, `cli.rs`: schemas, errors, rows.
- `app/` — the command-line program: argument parsing, reading schema files,
  the real-number generators and format specifications, and output.
- `tests/` — tests of the library.
