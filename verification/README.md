# mclaunch

An offline launcher for Minecraft Java Edition 1.8.9 (`mclaunch setup` fetches the
game files and a portable Java 8 runtime; `mclaunch` starts the game), built around
a library whose logic is specified and proved with Verus.

- `src/` — the verified library:
  - `config` — `config.toml`, its documented defaults and the settings it resolves to;
  - `layout` — the paths of the game directory, as component lists;
  - `manifest` — the version manifest and asset index, and the downloads derived from them;
  - `java` — the Java candidates, the order in which they are probed, how a
    `java -version` report is read, and the search for a bundled runtime;
  - `jre` — locating the runtime archive in the Azul answer;
  - `fetch` — `curl`/`tar` command lines and combined download outcomes;
  - `launch` — class path, the jar search over a listing, and the game's command line;
  - `setup_flow`, `launch_flow` — the two commands as state machines;
  - `setup_run` — whole runs of setup and what a successful one has done;
  - `text` — string search, splitting, joining and decimal rendering.
- `app/` — the program: file system, processes, threads, TOML/JSON parsing; it runs
  the two state machines, performing each action the library asks for.
- `tests/` — tests of the library on concrete values.
