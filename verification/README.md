# v11

A column-based in-memory database for data-oriented design, written in Verus.

`src/` is the verified library:

- `domain.rs`, `property.rs`, `lib.rs`: the registry of domains, properties and
  tables, and the `Universe` that holds an instance of each domain.
- `tables.rs`, `columns.rs`, `storage.rs`, `map_index.rs`, `avec.rs`: table
  descriptions and column storage (`VecCol`, the bit-packed `BoolCol`, the
  searchable `BTreeIndex`, and the chunked `ArrayVec`).
- `index.rs`, `tracking.rs`, `event.rs`, `joincore.rs`: row ids and ranges,
  checked iteration that skips deleted rows, selections, the flush of
  structural changes to trackers, event handlers, and merge joins.
- `parse.rs`, `macro_table.rs`: the `table!` grammar, read from source bytes
  into a table description.
- `modifier_table.rs`: the other `table!` form, whose table is configured by an
  `impl { ... }` block of modifiers, read and checked the same way.
- `invocations.rs`, `expander.rs`, `output.rs`, `output_text.rs`: the table
  generator: finding the `table!` invocations of a source file, checking each
  table, and rendering the text of its module.

`app/` holds what stays outside the library: the process-wide globals, serde
forms of the library's plain types, serde glue for reading structures field by
field, and the floating-point choice of an `ArrayVec` chunk size.
