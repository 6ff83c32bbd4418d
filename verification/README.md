# runa

A terminal file manager with Miller columns: a parent pane, the directory being browsed and
a preview, tabs, marks and a clipboard, fuzzy find through `fd`, previews through `bat`, and a
theme and key bindings read from a TOML file.

The library under `src/` holds the file manager's logic, each function with a contract that
Verus proves:

- `engine/`: entries and their attribute bits, which entries a listing shows and in what order
  (name, natural, extension and metadata orders), the cache of listed directories, file sizes,
  permissions and times as shown, previews of text files, finding and ranking paths, free names
  for copies, and the arguments handed to `fd` and `bat`.
- `app/`: the navigation state (selection, filters, marks), prompts and their input field, the
  answers of background work and which request they belong to, the parent and preview panes,
  key maps and prefix keys, tabs, and path completion.
- `config/`: general and display options, the status line format, key bindings, editors,
  colors, the preset themes and how user settings are laid over them.
- `ui/`: the pane columns, cutting text to a width, the visible part of the input field, and
  the overlay stack.
- `utils/`: text and path helpers, collections keyed by text, and the clock.

`app/` is the program around it: reading the configuration file, the terminal, the background
threads, the file system and the outside tools. `tests/` runs the library on concrete values.
