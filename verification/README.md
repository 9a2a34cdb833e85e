# gbj

The rules of a small top-down arcade shooter written with bevy, as a Verus
library, and the bevy app that runs them.

- `src/timer.rs`: repeating timers kept as whole nanoseconds and advanced by
  bevy's `Timer`; laws on conservation of time and on composing ticks.
- `src/animation.rs`: sprite-sheet frame changes and the game's animation
  tables; frames stay in range and cycle with the animation's length.
- `src/player.rs`: the player's hit points and the handling of contacts
  between the player and baddies; handling contacts in batches composes.
- `src/spawning.rs`: when baddies and missiles are due.
- `src/hud.rs`: the HUD texts, with numbers written in decimal.
- `src/controls.rs`: the key bindings.
- `app/`: the bevy app (rendering, physics, input, assets), which hands the
  library plain values and applies what it returns.
