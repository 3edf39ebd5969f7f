# ts_bind

TypeScript bindings for Rust types: a derive writes a `.d.ts` interface for a
struct or a `.ts` constant object (and optionally a union type) for an enum,
and an attribute adds a Rust constant to a shared `const.ts`.

- `src/` is the library, verified with Verus. It works on plain values: a
  Rust type is a `RustType`, the options of `#[ts_bind(...)]` are
  `AttrEntry` values, and a path is a `BindingPath` (its parts, joined in
  order). `ts/ts_map.rs` maps types, `ts/gen_struct.rs` and `ts/gen_enum.rs`
  write bindings, `files.rs` merges constants into the constants file,
  `ts_bind.rs` and `ts_bind_const.rs` put it together.
- `app/` is the macro side: it reads `ts-bind.toml`, turns `syn` syntax trees
  into the library's values, and reads and writes files.
- `tests/` runs the library on concrete values.
