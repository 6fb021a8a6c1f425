# eggs

A desktop pet with multiplayer presence. The same binary is the GUI (`eggs`,
`eggs run`) and the command line (`eggs <subcommand>`); state lives in
`~/.eggs` (or `EGGS_APP_DIR`).

## Layout

- `src/` — the verified core, written in Verus. Every function carries a
  contract; Verus proves all of them except those of the ten small
  wrappers (marked `#[verifier::external_body]`) that call std or an
  outside crate, whose contracts are trusted as stated: `push_char`
  (`String::push`), `to_lowercase` (`str::to_lowercase`), `parse_url` and
  `serialize_with_query` (the `url` crate), `sha256_digest` (`sha2`),
  `parent_of`, `file_name_of`, `extension_of` and `paths_equal`
  (`std::path`), and `fresh_device_id` (`uuid`). The modules:
  - `state`, `client`, `pid`, `ipc`: the runtime files and what is read from them;
  - `pet`: where pets are searched, which manifest loads, the list of
    installed pets, the built-in pet sync;
  - `remote`: `remote.json` and its edits, the websocket URL, the table of
    peers, and `RemoteActor`, the state machine of the remote session
    (connect, upload, announce, heartbeat, back-off);
  - `upload`, `remote_assets`: the two-phase sprite upload and the cache of
    peers' sprites;
  - `bubbles`, `peers`: the store of speech bubbles and the record of peer
    windows, with the plans that keep windows in line;
  - `pet_menu`, `cli`, `cli_install`: the context menu, the command line,
    and the PATH wiring;
  - `text`: the string and number helpers the rest is proved with.
- `tests/` — tests of the library on concrete values.
- `app/` — the program around the library: Tauri windows and menus,
  websocket and HTTP I/O, files, processes, and the floating-point window
  geometry.
