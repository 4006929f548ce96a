# amrust_3mf

A library for the 3D Manufacturing Format (3MF), written in Verus: the
logic is executable Rust whose behaviour is stated in `requires`/`ensures`
contracts and proved.

## Layout

- `src/core_model/` — the 3MF model: models, objects, meshes, components,
  build items, units and object types, with the names 3MF gives them.
  Floating-point values (vertex coordinates, transform entries) are held as
  IEEE 754 bit patterns.
- `src/io/builder.rs` — `ModelBuilder`: assembles a model and keeps it
  consistent (object ids follow positions, components refer to earlier
  objects, the Production extension's UUID and path rules).
- `src/io/path_map.rs` — the map from part paths to parts that a package
  holds; it keeps the order in which paths were added.
- `src/io/package.rs` — `ThreemfPackage`, what writing one produces
  (`write_plan`) and the processor that collects the parts while one is read.
- `src/io/reading.rs` — the decisions of the package readers: where the
  relationships are, which part is the root model, what each relationship
  asks to read.
- `src/io/query.rs`, `src/query.rs` — queries over models and packages.
- `src/io/utils.rs` — the namespace-declaration scanner and path helpers.
- `app/` — the archive I/O around the library: ZIP reading and writing, the
  XML form of the library's types, and the lazy package reader.
