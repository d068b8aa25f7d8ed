# shittuber

A microphone-driven avatar: the avatar image switches to its speaking pose
while the input level is above a threshold (with a short release time), nine
global hotkeys switch between the avatar's emotions, and all text is drawn
with a bitmap font.

`src/` is the verified library:

- `keys` — keyboard keys, their 16-bit codes, and the hotkey position each key
  is registered under;
- `binding` — the hotkeys built for the hotkey service and their ids;
- `settings` — the hotkey preferences and the settings file (write and read
  back);
- `ring` — the ring of recent audio levels;
- `font`, `layout`, `multiline` — glyph metrics, single-line text placement
  (left, centred, right aligned) and word-wrapped blocks;
- `avatar` — the strings of an avatar's `meta.toml` (filter, background
  colour, talk mode, sizes, image names, listed name);
- `meta` — reading an avatar's `meta.toml` (through the `toml` crate) and
  the avatar it describes;
- `controls` — hotkey capture in the settings, emotion choice by hotkey, and
  the screen flow;
- `names` — sorting of the avatar list;
- `cache` — the textures loaded once per file path;
- `number`, `chars` — number parsing and printing, splitting and replacing in
  text.

`app/` holds the program around it: audio input, the window, drawing, files,
and the floating-point parts (level averaging, the speaking decision and the
avatar's motion).
