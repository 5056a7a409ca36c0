# concinnity_engine

The engine-side logic of a small game engine, written in Verus: each function
states what it returns in `requires` / `ensures`, and Verus proves it. The one
exception is the shutdown token, whose flag lives in shared atomic memory that
other threads write; its behaviour is covered by tests.

- `src/gfx` — the transform hierarchy's depth, order and children index, the
  incremental pass's dirty set and subtree walk; the skinned buffers' layout;
  which draws the mesh streamer takes over and the seed headroom it reserves;
  the text-atlas pool's sprite slots; which data blobs init frees; the draw-to-mesh mapping; hot-reload source
  catalogs and the directories a file watcher subscribes to.
- `src/hud` — HUD chip text (per-pass GPU timings, system budget, memory) and
  the loading overlay's phase machine.
- `src/settings` — option indices to applied values, nearest-level snapping,
  option cycling, device gating; resolving the live graphics settings at
  launch; routing a settings command to its row, stepping each row and
  opting the quality preset out; the quality rows.
- `src/logic` — the shared variable store, the fire decision of a reaction,
  its action dispatch, and where its state is saved.
- `src/physics` — driver capacities and container bytes, the collision-layer
  table, the per-pair contact cooldown.
- `src/input` — the gamepad button and active-pad fold, d-pad navigation.
- `src/platform.rs` — the shader platform a build renders with.
- `src/shutdown.rs`, `src/resource.rs` — the shutdown token and source
  catalogues.
- `src/count.rs`, `src/text.rs` — counting and decimal-text building blocks the
  proofs share.

`app/` holds what Verus does not take: the save file (serde + CBOR), the OS
gamepad adapter, the loading overlay's fade clock, the real-valued parts of
reaction requests, the warning for a misrouted settings command, and the stick, navigation
and HUD code that works on real numbers. `tests/` exercises the library.
