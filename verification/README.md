# midenc_frontend_wasm

Names and metadata of WebAssembly modules on their way into the Miden compiler, verified with
Verus.

- `names`, `symbol`, `entity`, `globals`: the index spaces of a module and the names of their
  entities. The globals live in a `cranelift_entity::PrimaryMap`.
- `module`: the names that functions have in the source program and are linked under.
- `linkage`, `linker_stubs`, `decimal`: the linkage names of functions that share a name.
- `metadata`, `parsed`, `error`: the SDK metadata of a component and where its code lies.
- `laws`: what holds of all of this together.
