# swaybind

Shows the key bindings of a sway configuration: in a window with a filter, or
as a plain listing with `--dump`. The configuration is read from the file that
`-c` names, or from `swaymsg -t get_config`.

- `src/` is the verified library: reading the configuration (`lexer`,
  `config`), variables (`vars`, `keys`, `subst`), key symbols (`symbols`), the
  viewer state and its filter (`viewer`), the command line and the `--dump`
  listing (`cli`), text primitives (`text`), and properties proved of them
  (`laws`).
- `app/` is the program around it: reading files, running `swaymsg`, and
  drawing the window with iced.
- `tests/` runs the library on concrete configurations and texts.
