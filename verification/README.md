# p2p_shipyard

Tools to ship Holochain apps inside Tauri apps, on desktop and mobile: a runtime that launches
a Holochain conductor with its keystore, bundle store and local-network discovery; a Tauri
plugin that opens the UIs of the installed apps and serves their assets over the `happ`
protocol; and a scaffolding tool that turns a Holochain project into a Tauri app.

## Layout

- `src/` is the library, verified with Verus. It holds the decisions the tools take, each
  with its contract; the edits that go through outside scaffolding crates (rendering the
  templates, merging `package.json`, `Cargo.toml` and `flake.nix` inputs) are made in `app/`
  with the scripts, dependencies and flake shells that the library computes:
  - `filesystem`, `hashing`, `paths`: the bundle store and the record of installed apps;
  - `http_server`, `plugin`, `origins`: the `happ` protocol, window URLs and scripts, and the
    origins an app interface accepts;
  - `launch`, `config`, `runtime`, `auth`, `mdns`: launching the conductor, its
    configuration, the cached app interface authentications and the state of local-network
    discovery;
  - `update`: which coordinator zomes an update sends;
  - `scope`, `text`, `strings`, `flake`, `scaffold`: the edits that scaffolding makes to a
    project's `flake.nix` and `package.json` files;
  - `ffi`, `pilot`: the configuration of the mobile bindings and of the pilot app;
  - `laws`: properties that relate several functions.
- `tests/` runs the library on concrete values.
- Paths are handled as `/`-separated text, as on Unix-like systems.
- `app/` is the code that talks to the conductor, the keystore, Tauri, the network, the file
  system and the user, calling the library for each decision.
