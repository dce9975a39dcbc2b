# phantom

The core of the Phantom game engine, written in Verus: each function carries
a `requires`/`ensures` contract that Verus proves.

## Layout

- `src/world/` — scene graphs over `petgraph` (`graph_store.rs` holds the
  trusted declarations of the `petgraph` calls), textures and their
  formats, entity components.
- `src/render/` — how world textures and samplers map onto GPU formats,
  OpenGL and Vulkan constants, mipmap blit planning, the order of render
  passes, renderer backends.
- `src/editor/` — the editor's undo/redo history and its keyboard and
  selection handling.
- `src/app/` — start-up settings and the per-event plan of the event loop.
- `tests/` — tests of the library on concrete values.
- `app/` — plain Rust around the library: reading image files, serde and
  `thiserror` copies of library types, floating-point transforms and
  materials, and drivers that run commands and event-loop plans.

## Checking

Verus verifies `src/`; the tests run with the outside crates linked.
