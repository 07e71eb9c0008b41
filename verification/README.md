# vapordose

Manages the SmokeAPI DLC proxy for Steam games on Linux and the Steam Deck:
finds installed games, deploys or restores the proxy binaries, and keeps the
Proton `WINEDLLOVERRIDES` launch option of each game in Steam's
`localconfig.vdf` in step.

- `src/` is the library, verified with Verus: editing `localconfig.vdf`
  (`vdf`, with the entry grammar in `launch_options` and `quoted_field`),
  classifying apps (`scanner`), the store cache (`cache`), deployment plans
  (`injector`), release handling (`smokeapi`, `updater`, `steam_api`) and what
  the window shows (`ui`). Calls into `regex`, `serde_json` and a few std
  functions sit behind small trusted wrappers whose contracts state what the
  documentation promises.
- `app/` is the GTK program around it: file system, network and window.
- `tests/` runs the library on concrete inputs.
