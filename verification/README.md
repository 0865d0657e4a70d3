# gremlin_types

The values of Apache TinkerPop's Gremlin type system and their GraphBinary form, written
in Verus. Every encoder states the bytes it appends as a spec function over a model of the
value; every decoder states its outcome as a spec parser over the bytes that follow the
position it reads at. Laws prove that what is written reads back.

## Layout

- `src/codec.rs`, `src/binary.rs`: the traits and helpers shared by all codecs; big-endian
  integers.
- `src/core_type.rs`, `src/error.rs`: type codes, value flags, decoding errors.
- `src/primitives.rs`, `src/collections.rs`, `src/nullable.rs`, `src/entry_map.rs`: integers,
  texts, UUIDs, characters, lists, sets, maps and absent values.
- `src/enums.rs`, `src/structure.rs`, `src/extended.rs`: the traversal enums, byte buffers,
  lambdas, dates and times, periods.
- `src/value.rs`, `src/element.rs`, `src/path_labels.rs`: `GremlinValue`, graph elements and
  paths; `src/roundtrip.rs` and `src/leaf_laws.rs` prove that a well-formed value reads back.
- `src/traversal.rs`, `src/metrics.rs`, `src/traverser.rs`, `src/graph.rs`, `src/inet.rs`,
  `src/duration.rs`, `src/custom.rs`, `src/id.rs`: bytecode, traversal metrics and
  strategies, traversers, graphs, internet addresses, durations, custom values and element
  ids, each with its own codec and laws.
- `src/bignum.rs`: integers and decimals of any size, held as their shortest two's-complement
  bytes, with their codecs; the bytes are read through `num`.
- `src/any_value.rs`: reading a value of any type at the top level, graphs, bytecode, metrics
  and strategies included.
- `src/access.rs`: taking the value out of the variant of a `GremlinValue` that holds it.
- `src/period_text.rs`: the ISO-8601 text of a period, proved to read back;
  `src/duration_text.rs`: the reader of the ISO-8601 text of a duration.
- `src/calendar_text.rs`, `src/structure_text.rs`: the text of years, months, days of a
  month, byte buffers and lambdas.
- `src/binding.rs`, `src/key_text.rs`: bindings, and map keys and element ids as texts.
- `src/json.rs`: a JSON value whose numbers are integers or the bits of a floating-point
  number, and whose objects keep their members in order.
- `src/graphson.rs`, `src/graphson_read.rs`: the GraphSON 3 form of a `GremlinValue`, stated
  as a spec function over the value's model, and its reader, stated as a spec reader over the
  JSON value's model; `src/graphson_laws.rs`: what is written as GraphSON 3 reads back, for
  the values that `is_plain_v3` names (all but sets, bulk sets, UUIDs, and elements that carry
  their parent or, for vertices and vertex properties, their properties).
- `tests/`: tests run against the compiled library.
- `app/`: conversions to and from chrono, uuid, serde_json and std types, and error types
  for std.

## What is not here

- GraphSON 2, and the GraphSON forms of graphs, bytecode, traversal strategies, metrics,
  predicates, big numbers and the date and time types: reading their type names gives
  `UnsupportedType` or `WrongTypeIdentifier`.
- A `GremlinValue` does not hold graphs, bytecode, strategies or metrics: they are read and
  written on their own (`src/any_value.rs` reads them at the top level of a message).
- The display text of a `GremlinValue`.
