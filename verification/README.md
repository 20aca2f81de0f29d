# nano9

The logic of Nano-9, a Pico-8 style game runtime, as a library whose
behaviour is stated in `requires` / `ensures` contracts and proved with Verus.

## Layout

- `src/` – the verified library.
  - `cart.rs` – the `.p8` text cartridge format (sections, gfx, gff, map,
    sfx and music) and the `.p8.png` route through `pico8_decompress` and
    `pico8-to-lua`; `code_check.rs` checks that compressed code stays within
    the decompressor's buffers before it is decompressed.
  - `audio.rs`, `command.rs` – notes, sound effects and the decisions of the
    audio channels.
  - `gfx.rs`, `fillp.rs`, `palette.rs`, `pixel.rs`, `map.rs`, `line.rs` –
    sprite sheets as packed bits, fill patterns, palettes, pixel access,
    map tiles and line plans.
  - `api.rs`, `bit_ops.rs`, `input.rs`, `keyboard.rs`, `clear.rs`,
    `gfx_handles.rs` – the scripting API's argument handling, 16.16 bit
    operations, buttons, keys, screen clearing and the image cache.
  - `p8scii.rs`, `hex.rs`, `lines.rs`, `text.rs` – text and hex decoding.
- `tests/` – tests of the library, run against the real outside crates.
- `app/` – the engine glue (Bevy systems, asset loaders, audio decoding,
  configuration files) that calls the library; it is ordinary Rust.
