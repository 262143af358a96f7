# IObit Unlocker shell bridge

A context-menu extension for Windows Explorer that hands a whole selection of files to IObit
Unlocker, to be unlocked or to be unlocked and deleted. However many files are selected, the user is
asked once for raised rights; success is silent, and a failure is told of in one dialog.

- `src/` is the verified library: the files that the parts exchange, the settings, command lines,
  what the menu shows and means, which driver call comes next and what the user is told. Every
  function states in its contract what it gives, and the properties that span functions stand beside
  them as public proof functions.
- `app/` is the code round it: the shell extension, the helper program and the worker, which do the
  input and output and the calls into Windows.
- `tests/` runs the library.

A selection travels like this. The extension writes it to one request file and starts the helper on
it. The helper starts IObit Unlocker's own program, hidden, has it load the worker and waits. The
worker reads the request, calls the driver for every path and, where that fails and the settings ask
for it, once more with the option to force, and writes a result file. The helper reads the result
and removes both files.

## Settings

`iobitunlocker_shell_bridge.ini`, beside the extension, holds lines of the form `key=value`:

- `root_menu_text`, `unlock_menu_text`, `delete_menu_text`: the texts of the menu
- `unlock_menu_hotkey`, `delete_menu_hotkey`: the hotkeys of the two items, `F` and `D` where
  nothing is said; `none`, `off`, `0` or `-` for no hotkey
- `debug_log`: `1` for a log in the temporary directory
- `unlock_force_fallback`, `delete_force_fallback`: `1` to force the action on a path where it
  failed; `0`, the default, to leave it at the failure

Lines that are empty or start with `#` or `;` are passed over. The last value counts.
