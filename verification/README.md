# magicwindows

The verified core of MagicWindows, a Windows app that installs Apple-style
keyboard layouts and remaps the modifier and F12 / Eject keys of Apple
keyboards. The public functions of `src/` carry Verus contracts, and
the laws that span several of them are stated as proof functions.

- `layout`, `catalog`, `detect`: the layout model and its validation, the
  catalogue of bundled layouts, and auto-detection of the layout a user
  types on.
- `klc`, `kbd_c`: the `.klc` and keyboard-DLL C sources of a layout, each
  stated exactly as a text, with the law that the `.klc` text does not depend
  on the order of the layout's map entries.
- `scancode_map`, `f12_remap`, `modifiers`: the `Scancode Map` registry value,
  with the laws that reading back what a toggle selection writes gives that
  selection, and that the F12 setting leaves the modifier toggles alone.
- `install`, `health_check`, `hardware`, `diagnostics`: the PowerShell scripts
  of the install, probe and report steps, and how their output is read.
- `text`, `sort`, `json`: text helpers, the stable sort the generators use,
  and the part of a JSON document the read-outs look at.

`app/` holds the unverified shell around it: process and file work, and the
serde shapes of the types. `tests/` runs the library on concrete values.
