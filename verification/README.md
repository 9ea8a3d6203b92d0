# minecraft_alpha_rust

A voxel world library in the style of Minecraft Alpha, written in Verus:
block and chunk coordinates, chunk storage, the world and its chunk
loading, terrain shaping, chunk meshing, input state and the world
thread's decisions, each with its behaviour stated as contracts and proved.

Layout:

- `src/` — the verified library.
  - `math/` — packed positions, world/chunk/local coordinates, floor
    division, clamping, powers of two, decimal text.
  - `world/` — chunks, chunk storage, the ticked world and the world with
    chunk loading around the player, terrain steps (base terrain, surface
    layers, cave carving, ore veins).
  - `render/` — face-culled chunk meshes, cube meshes, graphics wrapper
    and adapter information.
  - `engine/` — the engine run and the world thread's turn.
  - `input/`, `entities/`, `blocks/`, `audio/`, `nbt/` — input state, the
    spatial index, block registry, light, materials and small systems.
- `tests/` — tests of the library.
- `app/` — the program: noise-based terrain sampling, cameras and entities
  in floating point, the world thread with its channels, and the console
  run. The window and GPU renderer are not part of it.
