# voxel_core

The verified core of a voxel engine, written in Verus.

`src/` is the library. Verus verifies every function in it against its contract; the
functions that only read or write a shared thread status (`ThreadStatus`) state nothing
about the value, which other threads may change at any time:

- `block/light.rs`: block and sky light levels packed into one byte.
- `block/mod.rs`: light attenuation, block properties and how model variants override them,
  face directions, blocks and block types.
- `block/block_state.rs`: named state values of a block, kept as a map with unique names.
- `block/block_pallet.rs`: the palette of a chunk part, with ids that are reused once freed.
- `block/asset_loader.rs`: the block registry by name and by id, and the global quad list.
- `block/model/`: cuboid models with parent inheritance and texture renaming, baking them
  into quads, model variants selected by block state, and the packed GPU face format.
- `chunk_position.rs`, `global_vector.rs`: integer positions inside a chunk column and in
  the world, with checked and normalizing arithmetic.
- `collision.rs`: the blocks that a box covers, as integer offsets.
- `event.rs`: double-buffered event queues and readers that remember what they have read.
- `thread_work_dispatcher.rs`, `interval.rs`: handing work to worker threads, and running
  an action at most once per period.
- `keybinds.rs`, `settings.rs`, `name_map.rs`, `vector.rs`, `utils.rs`: small supporting
  types.

The public proof functions state the laws that tie operations together (for instance that
a block inserted into a palette is found under the id the insertion returned).

`app/` is the program around the library: it reads the settings, model and block files with
serde, does the floating-point geometry (positions, bounding boxes, rays, model rotation),
stores resources and event queues by type, and holds the code that starts the worker
threads of a work dispatcher on a thread pool.

`tests/` exercises the library on concrete values.
