# gamescope-gui

A wrapper for launching Steam games through Gamescope with per-game
settings (`gamescope-gui -- %command%` in a game's launch options). It
shows a settings window, saves the chosen options per game, then runs
`gamescope [saved options] -- [game command]`.

The library under `src/` is verified with Verus:

- `args`: the wrapper's own command line (help, version, the `--`
  separator, the game command passed on unchanged);
- `settings`: the Gamescope options and the argument list they stand for;
- `display`: resolution presets derived from the monitor's resolution and
  the labels that show them;
- `form`: what the settings window shows for saved settings, and the
  settings its rows stand for;
- `gamescope`: the Gamescope command line, exit codes and error reports;
- `profiles`: how a game is identified (Steam app id or a BLAKE3 hash of
  its command) and the per-game profile store, with its migration;
- `text`: trimming, decimal numbers and byte/text helpers.

`app/` holds the program around it: reading the process's arguments and
environment, the GTK 4 / libadwaita window, reading and writing the TOML
profile file under the XDG config directory, and starting Gamescope.
