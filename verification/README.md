# wisp_defense

The game logic of a grid-based tower-defense game, written in Verus: every function in
`src/` carries a contract that Verus proves, except `random_index` in
`buildings/mining_complex.rs`, which draws a random index with nanorand and whose contract
(the index is below the length it is given) is trusted.

- `grids/` — the grids the game keeps (obstacles, energy supply, wisps, visited cells), their
  row-by-row storage, imprints of objects and the queries over them.
- `pathfinding.rs` — shortest walk from a cell to the nearest building.
- `inventory/` — the stock of resources and payments, the almanach of buildings, objectives.
- `objectives.rs` — objectives: their life cycle, progress and saved form.
- `map_loader.rs`, `map_editor.rs` — placing a map file on the obstacle grid and collecting the
  grid's objects back into a map file.
- `map_objects/` — dark ore and its scanners, walls, quantum fields and their research.
- `buildings/` — placement and payment of buildings, tower targeting and shooting decisions,
  mining, energy relays.
- `overlays/` — the energy supply heatmap, including the flood that previews the supply of a
  supplier being placed, and the emissions overlay mode.
- `effects/`, `editor/`, `projectiles/` — sprite animation steps and small records.

`app/` is a command-line tool around the library: it reads `assets/data.yaml` and
`maps/<name>.yaml`, places the map on an obstacle grid and writes the grid back out as a map.

`tests/` exercise the library on concrete values.
