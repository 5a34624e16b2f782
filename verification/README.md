# Chrysocolle

An emulator launcher: it keeps a catalogue of game files (identified by the CRC32
of their first 8 MiB), a table of emulators (RetroArch with a core, or any other
program), and a git repository in which the emulators' save folders are shared.

- `src/` is the verified library (Verus):
  - `settings`: the settings model (games, emulators, save repository), the
    emulator accessors, tile-size input;
  - `table`: the name-keyed table used for emulators and save folders;
  - `catalog`: merging a folder scan into the catalogue, moving games between
    emulators, game labels, and the stable ordering of game tiles;
  - `emulators`: saving and deleting emulators, and the commands that start
    emulators and games;
  - `sync`: the project's folders and the plans that copy saves to and from the
    repository;
  - `text`, `paths`, `checksum`: characters and name groups, path arithmetic
    (`std::path`), and game identifiers (`crc32fast`).
- `app/` is the program around it: the settings file (TOML through serde), folder
  scans, copies (`fs_extra`), `git` and emulator processes, driven from the command
  line.
- `tests/` exercises the library on concrete values.
