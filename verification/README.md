# wolf3d-rs

A Wolfenstein 3D engine and data toolkit whose logic is verified with Verus.

- `src/` is the verified library: 16.16 fixed-point arithmetic and lookup
  tables; decoders for the game's data files (VGAHEAD/VGADICT/VGAGRAPH
  Huffman graphics, the VSWAP page file, the GAMEPAL palette, MAPHEAD/GAMEMAPS
  Carmack + RLEW levels, AUDIOHED/AUDIOT chunks); the raycaster, sprite
  scaler and framebuffer helpers; player movement, doors, actor AI and the
  game state machine; input handling, menus and the status bar; proportional
  font drawing; WAV encoding; and the export tools' decoding (pictures,
  font atlases, walls, sprites, digitized sounds, map planes, and JSON
  string quoting).  The PNG, WAV and JSON files themselves are written by
  `app/`.  Every function
  carries a contract, and the cross-function properties are stated as
  public proof functions named `law_*`.
- `tests/` runs the library on concrete inputs.
- `app/` is the program around it: the winit/pixels window and event loop,
  rodio audio playback, file reading and writing, the floating-point tables,
  and the command-line tools (`extract`, `maps`, `render-test`, `audio`).

Byte-order reads go through `byteorder`, UTF-8 decoding through
`String::from_utf8_lossy`, and trimming through `str::trim`; those calls are
the library's trusted items, each documented where it is declared in
`src/assets/bytes.rs`.
