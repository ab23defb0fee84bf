# blockworld

A small 2D block world game. The library (`src/`, verified with Verus) holds
the rules: the chunk grid and its block lookups and writes, terrain layout from
per-column surface heights, collision of hitbox points, the spawn ground
search, the inventory, integer mob state and the mouse-input decisions.
`app/` is the game program (macroquad window, drawing, input, floating-point
physics, Perlin noise) built on the library.

- `src/block.rs`: block kinds and their hardness.
- `src/world.rs`: chunk grid, `block_at` / `set_block`, collisions.
- `src/terrain.rs`: world generation from column surfaces.
- `src/player.rs`: spawn ground search, chunk index, chunk visibility.
- `src/inventory.rs`: items, stacking, selection scrolling.
- `src/mob.rs`: mob health and leap timing.
- `src/controls.rs`: what a frame of mouse input does.
