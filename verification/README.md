# pager_theme

Theme identity, palette mapping and paint-mode rules of a terminal pager,
verified with Verus.

`src/` is the verified library:

- `color`, `polarity`, `theme`, `palettes`: colors as plain values, the
  dark/light classifier of a canvas, the palette struct and the two
  hand-mapped palettes.
- `canvas`: transparent-background paint mode, solid paints and inverse ink.
- `catalog`, `ghostty`: the terminal-scheme catalog and the expansion of a
  scheme into a full palette, with scrollbar contrast enforced.
- `kind`, `text`: theme identities, their names, picker rows, parsing and
  cache codes.
- `transparency`: the coalescing rules that persist the transparency setting
  (newest value wins, failures roll back to the last confirmed value).
- `command`: the `/transparent` slash command.
- `configmerge`: deep merge of settings sections into the user config file.
- `configfile`: the user layer's root table read from, and rendered to,
  TOML text.
- `menu`: layout of the welcome menu.
- `highlight`: regex match ranges and the cells search highlighting restyles.

`app/` holds what stays outside verification: ratatui conversions and
painting, file I/O for the config file, and the async writer task.
