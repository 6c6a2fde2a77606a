# deskstamp

A desktop watermark overlay for Wayland: a click-through layer over every
output that repeats a text (with dynamic tokens), an optional logo, and
framing lines.

## Layout

- `src/` — the verified library:
  - `text.rs`: search, replacement, trimming and conversions on character sequences;
  - `tokens.rs`: `{user}`, `{hostname}`, `{date}`, `{time}`, `{date:FORMAT}`, `{time:FORMAT}`;
  - `config.rs`: defaults of the configuration fields that are not floating point;
  - `ipc.rs`: the daemon's reactions to control commands, its replies, its clock;
  - `cli.rs`: which action a command line asks for;
  - `raster.rs`: PNG decoding, logo tinting, vertical lines, glyph pixels, tile contents;
  - `font_file.rs`: fonts parsed by fontdue, kept with the bytes they came from;
  - `fonts.rs`: font candidates and the renderer that holds the chosen font;
  - `tray.rs`, `gui.rs`, `overlay.rs`: decisions of the tray item, the settings window
    and the overlay surfaces.
- `app/` — the program around it: configuration file, socket, Wayland overlay,
  egui settings window, tray item, and the floating-point drawing.
- `tests/` — tests of the library.

## Default configuration

`~/.config/deskstamp/config.json` is created with these values (and defaults for
every other field):

```json
{
  "text": "CONFIDENTIAL • {user}@{hostname} • {time:%H:%M:%S}",
  "font_size": 22.0,
  "angle_deg": -25.0,
  "opacity": 0.18,
  "color_rgba": [255, 255, 255, 255],
  "spacing_x": 420.0,
  "spacing_y": 220.0,
  "stagger_offset": 210.0,
  "stroke_width": 1.0,
  "stroke_color_rgba": [0, 0, 0, 180],
  "font_path": null,
  "active": true,
  "update_interval_secs": 1
}
```
