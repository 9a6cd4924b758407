# terra_sandbox

A first-person sandbox built on Bevy: a player with a flashlight and a
pick-up hand, an in-game editor (dock of inspectors, free camera, object
selection), and streamed terrain chunks generated from Perlin noise.

The rules of the game live in `src/`, written in Verus and verified:

- `load_chunks`, `chunk`: which chunks are in view of the player, the chunk
  map (one chunk per position) and what loading and unloading spawn and
  despawn; a second load with the same view changes nothing.
- `world_mesh`: the triangle index buffer of a chunk's terrain grid.
- `editor`, `free_camera`, `input`, `player`, `player_input`: the editor's
  switches, which camera renders, mouse capture and the keyboard controls.
- `pick_object`, `player_ui`: picking objects up and the crosshair.
- `grass`, `scene`: the grids on which grass and test blocks are placed.

`app/` is the Bevy program around it: systems, rendering, physics, egui, and
everything computed in floating point (noise heights, camera angles, the
view cone, distances), handing plain values to the library and acting on
what it returns.
