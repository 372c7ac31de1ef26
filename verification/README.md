# rust_webgpu_game

Two small WebGPU games, Crystal Arkanoid and a 200-against-200 tank battle,
whose rules and data handling are verified with Verus.

## Layout

- `src/` — the verified library.
  - `levels` — the brick patterns of the five levels and the level layout.
  - `rules` — score, lives, combo, power-up drops, level progression and the
    sound queue of Arkanoid, with the laws they keep.
  - `battle` — hit points, living tanks per team and the battle's score line.
  - `datauri`, `texture` — base64 `data:` URIs and glTF albedo textures
    (decoding goes through the `image` crate).
  - `grass`, `mesh`, `hud`, `text` — the procedural grass texture, mesh
    indices, HUD digits and glyphs, overlay strings.
  - `pool`, `pending`, `sfx`, `rng` — particle slot rings and pools, requests
    waiting for the next frame, capped sound queues, the xorshift generator.
- `tests/` — tests of the library on concrete values.
- `app/` — the program: windows, input, audio output, model loading and the
  real-valued physics around the verified rules. Run it with no argument for
  Arkanoid, or with `tanks` for the battle.
