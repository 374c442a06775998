# rctgen

Tools for making custom rides for OpenRCT2: the rules that turn rendered track pieces and
vehicles into game sprites and object files, with their behaviour stated in contracts and
proved by Verus.

- `src/` is the verified library. Its main parts:
  - `csg`, `rle`, `le_bytes`, `sprite_archive`: the game's sprite archive format, its
    run-length encoding, and reading it back (with round-trip laws).
  - `mask`, `split`, `depth`, `crop`, `chain`, `offset`: cutting a rendered track piece into
    the sprites of each view, placing them on their tiles, cropping them, and marking lift-hill
    chains.
  - `track_desc`, `track_list`, `sprites_json`, `names`: which pieces a track style has, how
    its sprites are named, and how they are merged into a sprite list.
  - `vehicle`, `vehicle_images`, `ride`, `atlas`, `image_file`, `colour`: ride objects, their
    sprite archive and vehicle sprite sheets.
  - `editor`, `render_queue`, `viewport`, `settings`, `drawing`, `track_drawing`, `supports`,
    `adjacent`, `coords`, `path_key`: the decisions of the track editor: what to reload and render after a change,
    what to draw and in which order, and the recent-files list.
- `tests/` runs the library on concrete values.
- `app/` is the command-line program around it: file input and output, JSON, and the
  floating-point vehicle angles.
